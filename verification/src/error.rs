use vstd::prelude::*;
use vstd::std_specs::convert::FromSpecImpl;
use vstd::std_specs::convert::IntoSpec;
use vstd::string::StringExecFns;

verus! {

/// The error type shared by the whole library.
#[derive(Debug)]
pub enum Error {
    /// Operations were called in the wrong order.
    Order(String),
    /// A builder was asked to build before the named part was specified.
    Specify(&'static str),
    /// Any other failure, described by its message.
    Generic(String),
}

/// The decimal digits of `n`, most significant first: how `Display` writes an
/// unsigned integer.
pub open spec fn decimal(n: nat) -> Seq<char>
    decreases n,
{
    if n < 10 {
        seq![(n + 48) as char]
    } else {
        decimal(n / 10).push((n % 10 + 48) as char)
    }
}

/// The text of the decimal digit `d`.
fn digit_text(d: u64) -> (r: &'static str)
    requires
        d < 10,
    ensures
        r@ == seq![(d + 48) as char],
{
    match d {
        0 => {
            proof {
                reveal_strlit("0");
            }
            "0"
        },
        1 => {
            proof {
                reveal_strlit("1");
            }
            "1"
        },
        2 => {
            proof {
                reveal_strlit("2");
            }
            "2"
        },
        3 => {
            proof {
                reveal_strlit("3");
            }
            "3"
        },
        4 => {
            proof {
                reveal_strlit("4");
            }
            "4"
        },
        5 => {
            proof {
                reveal_strlit("5");
            }
            "5"
        },
        6 => {
            proof {
                reveal_strlit("6");
            }
            "6"
        },
        7 => {
            proof {
                reveal_strlit("7");
            }
            "7"
        },
        8 => {
            proof {
                reveal_strlit("8");
            }
            "8"
        },
        _ => {
            proof {
                reveal_strlit("9");
            }
            "9"
        },
    }
}

/// Appends `n` to `s` in decimal, as `Display` writes an unsigned integer.
pub fn write_decimal(s: &mut String, n: u64)
    ensures
        final(s)@ == old(s)@ + decimal(n as nat),
    decreases n,
{
    if n >= 10 {
        write_decimal(s, n / 10);
    }
    let digit = digit_text(n % 10);
    s.append(digit);
    proof {
        if n >= 10 {
            assert(decimal(n as nat) == decimal((n / 10) as nat).push((n % 10 + 48) as char));
        }
    }
}

/// The text that `Error::message` gives for `Error::Specify(what)`.
pub open spec fn specify_message(what: Seq<char>) -> Seq<char> {
    "Need to specify "@ + what + " first"@
}

impl Error {
    /// A generic error with the given message: the text that converting `msg`
    /// into a `String` gives (for a string slice, its own text; see
    /// `lemma_new_keeps_slice_text`).
    pub fn new<T: Into<String>>(msg: T) -> (r: Self)
        ensures
            r matches Error::Generic(s) && call_ensures(<T as Into<String>>::into, (msg,), s),
            T::obeys_into_spec() ==> r == Error::Generic(msg.into_spec()),
    {
        Self::Generic(msg.into())
    }

    /// A generic error whose message is the text `msg`.
    pub fn from_message(msg: &str) -> (r: Self)
        ensures
            r matches Error::Generic(s) && s@ == msg@,
    {
        Self::Generic(msg.to_string())
    }

    /// The human-readable text of the error.
    pub fn message(&self) -> (r: String)
        ensures
            match self {
                Error::Order(s) => r@ == s@,
                Error::Generic(s) => r@ == s@,
                Error::Specify(what) => r@ == specify_message(what@),
            },
    {
        match self {
            Error::Order(err) => err.clone(),
            Error::Generic(err) => err.clone(),
            Error::Specify(err) => {
                let mut s = String::from_str("Need to specify ");
                s.append(err);
                s.append(" first");
                proof {
                    reveal_strlit("Need to specify ");
                    reveal_strlit(" first");
                }
                s
            },
        }
    }
}

/// `String::from` on a string slice: std documents that it copies the slice
/// into a new `String`, so the text is the slice's.
pub assume_specification<'a>[ <String as From<&'a str>>::from ](s: &str) -> (r: String)
    ensures
        r@ == s@,
;

impl From<String> for Error {
    fn from(err: String) -> (r: Self)
        ensures
            r == Error::Generic(err),
    {
        Error::Generic(err)
    }
}

impl FromSpecImpl<String> for Error {
    open spec fn obeys_from_spec() -> bool {
        true
    }

    open spec fn from_spec(v: String) -> Self {
        Error::Generic(v)
    }
}

impl From<&'static str> for Error {
    fn from(err: &'static str) -> (r: Self)
        ensures
            r matches Error::Generic(s) && s@ == err@,
    {
        Error::Generic(err.to_string())
    }
}

impl FromSpecImpl<&'static str> for Error {
    /// A `String` is not determined by its characters in this logic, so no
    /// exact value is promised here; `from` itself states the message.
    open spec fn obeys_from_spec() -> bool {
        false
    }

    open spec fn from_spec(v: &'static str) -> Self {
        Error::Specify(v)
    }
}

/// Building an error from a string slice keeps the slice's text: what
/// `Error::new` promises for `T = &str`, read through the conversion.
pub proof fn lemma_new_keeps_slice_text(msg: &str, r: Error)
    requires
        r matches Error::Generic(s) && call_ensures(<&str as Into<String>>::into, (msg,), s),
    ensures
        r matches Error::Generic(s) && s@ == msg@,
{
}

} // verus!
