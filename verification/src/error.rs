//! What a read can fail with.

use crate::outside::decimal;
use crate::outside::numbered;
use vstd::prelude::*;

verus! {

/// The failure of a read, and of the two writes that can fail.
#[derive(Debug)]
pub enum ReadBonErr {
    /// A read asked for `try_index` bytes where only `len` were left.
    Overflow { try_index: usize, len: usize },
    /// The tag under the cursor does not fit the read that was asked for:
    /// the kind that was asked for, the kind and the tag that were found,
    /// and the position of the tag.
    TypeNoMatch { try_read: String, act_type: (String, u8), head: usize },
    /// Anything else, with a message.
    Other(String),
    /// The generic read met a container with a length prefix, which is
    /// read through the container path.
    IsContainer(u8),
}

/// The mathematical content of a [`ReadBonErr`].
pub enum ErrorView {
    Overflow { try_index: usize, len: usize },
    TypeNoMatch { try_read: Seq<char>, name: Seq<char>, tag: u8, head: usize },
    Other(Seq<char>),
    IsContainer(u8),
}

impl View for ReadBonErr {
    type V = ErrorView;

    open spec fn view(&self) -> ErrorView {
        match self {
            ReadBonErr::Overflow { try_index, len } => ErrorView::Overflow {
                try_index: *try_index,
                len: *len,
            },
            ReadBonErr::TypeNoMatch { try_read, act_type, head } => ErrorView::TypeNoMatch {
                try_read: try_read@,
                name: act_type.0@,
                tag: act_type.1,
                head: *head,
            },
            ReadBonErr::Other(message) => ErrorView::Other(message@),
            ReadBonErr::IsContainer(tag) => ErrorView::IsContainer(*tag),
        }
    }
}

impl Clone for ReadBonErr {
    fn clone(&self) -> (r: ReadBonErr)
        ensures
            r@ == self@,
    {
        match self {
            ReadBonErr::Overflow { try_index, len } => ReadBonErr::Overflow {
                try_index: *try_index,
                len: *len,
            },
            ReadBonErr::TypeNoMatch { try_read, act_type, head } => ReadBonErr::TypeNoMatch {
                try_read: try_read.clone(),
                act_type: (act_type.0.clone(), act_type.1),
                head: *head,
            },
            ReadBonErr::Other(message) => ReadBonErr::Other(message.clone()),
            ReadBonErr::IsContainer(tag) => ReadBonErr::IsContainer(*tag),
        }
    }
}

/// The name under which a tag is reported.
pub open spec fn tag_name(tag: u8) -> Seq<char> {
    if tag == 0 {
        "null"@
    } else if tag == 1 {
        "false"@
    } else if tag == 2 {
        "true"@
    } else if tag == 3 {
        "0.0"@
    } else if tag == 4 {
        "1.0"@
    } else if tag < 9 {
        "float"@
    } else if tag < 15 {
        "int"@
    } else if tag == 15 {
        "-1"@
    } else if tag < 36 {
        decimal((tag - 16) as nat)
    } else if tag < 42 {
        "uint"@
    } else if tag < 111 {
        "string"@
    } else if tag < 180 {
        "bin"@
    } else if tag < 249 {
        "container"@
    } else {
        "invalid type"@
    }
}

/// The view of the mismatch that a read of `try_read` reports for `tag`
/// found at `head`.
pub open spec fn mismatch(try_read: Seq<char>, tag: u8, head: usize) -> ErrorView {
    ErrorView::TypeNoMatch { try_read, name: tag_name(tag), tag, head }
}

impl ReadBonErr {
    /// A read of `try_index` bytes that found only `len`.
    pub fn overflow(try_index: usize, len: usize) -> (e: ReadBonErr)
        ensures
            e@ == (ErrorView::Overflow { try_index, len }),
    {
        ReadBonErr::Overflow { try_index, len }
    }

    /// A read of `try_read` that found the tag `type_code` at `head`.
    pub fn type_no_match(try_read: String, type_code: u8, head: usize) -> (e: ReadBonErr)
        ensures
            e@ == mismatch(try_read@, type_code, head),
    {
        let name = if type_code == 0 {
            "null".to_owned()
        } else if type_code == 1 {
            "false".to_owned()
        } else if type_code == 2 {
            "true".to_owned()
        } else if type_code == 3 {
            "0.0".to_owned()
        } else if type_code == 4 {
            "1.0".to_owned()
        } else if type_code < 9 {
            "float".to_owned()
        } else if type_code < 15 {
            "int".to_owned()
        } else if type_code == 15 {
            "-1".to_owned()
        } else if type_code < 36 {
            proof {
                reveal_strlit("");
            }
            let digits = numbered("", (type_code - 16) as u64);
            digits
        } else if type_code < 42 {
            "uint".to_owned()
        } else if type_code < 111 {
            "string".to_owned()
        } else if type_code < 180 {
            "bin".to_owned()
        } else if type_code < 249 {
            "container".to_owned()
        } else {
            "invalid type".to_owned()
        };
        ReadBonErr::TypeNoMatch { try_read, act_type: (name, type_code), head }
    }

    /// A failure with nothing but a message.
    pub fn other(message: String) -> (e: ReadBonErr)
        ensures
            e@ == ErrorView::Other(message@),
    {
        ReadBonErr::Other(message)
    }
}

} // verus!
