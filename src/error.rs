use vstd::prelude::*;

verus! {

/// Why a byte buffer is not a nul-terminated C string.
#[derive(Debug, Clone, Copy, PartialEq, Eq, Structural)]
pub enum NulError {
    /// A zero byte stands before the last position.
    InteriorNul { position: usize },
    /// The buffer holds no zero byte at all.
    NotNulTerminated,
}

/// The ways a render can fail.
#[derive(Debug, Clone, Copy, PartialEq, Eq, Structural)]
pub enum Error {
    /// The engine could not parse the source.
    Graph,
    /// The engine could not lay the parsed graph out.
    Layout,
    /// The engine could not encode the laid-out graph.
    Render,
    /// The source buffer is not a C string.
    FromBytesWithNul(NulError),
}

/// The decimal digits of `n`, most significant first.
pub open spec fn decimal(n: nat) -> Seq<char>
    decreases n,
{
    if n < 10 {
        seq![digit_char(n)]
    } else {
        decimal(n / 10) + seq![digit_char(n % 10)]
    }
}

pub open spec fn digit_char(d: nat) -> char {
    ((d + 48) as u32) as char
}

/// The text of each error.
pub open spec fn message_of(e: Error) -> Seq<char> {
    match e {
        Error::Graph => "failed to read graph."@,
        Error::Layout => "failed to layout."@,
        Error::Render => "failed to render."@,
        Error::FromBytesWithNul(NulError::InteriorNul { position }) =>
            "data provided contains an interior nul byte at byte pos "@ + decimal(position as nat),
        Error::FromBytesWithNul(NulError::NotNulTerminated) =>
            "data provided is not nul terminated"@,
    }
}

fn digit_str(d: usize) -> (r: &'static str)
    requires
        d < 10,
    ensures
        r@ == seq![digit_char(d as nat)],
{
    proof {
        reveal_strlit("0");
        reveal_strlit("1");
        reveal_strlit("2");
        reveal_strlit("3");
        reveal_strlit("4");
        reveal_strlit("5");
        reveal_strlit("6");
        reveal_strlit("7");
        reveal_strlit("8");
        reveal_strlit("9");
    }
    let r = match d {
        0 => "0",
        1 => "1",
        2 => "2",
        3 => "3",
        4 => "4",
        5 => "5",
        6 => "6",
        7 => "7",
        8 => "8",
        _ => "9",
    };
    assert(r@ =~= seq![digit_char(d as nat)]);
    r
}

/// Appends the decimal digits of `n` to `out`.
fn push_decimal(out: &mut String, n: usize)
    ensures
        final(out)@ == old(out)@ + decimal(n as nat),
    decreases n,
{
    if n < 10 {
        out.append(digit_str(n));
    } else {
        push_decimal(out, n / 10);
        out.append(digit_str(n % 10));
        assert(final(out)@ =~= old(out)@ + decimal(n as nat));
    }
}

impl Error {
    /// The human-readable text of the error.
    pub fn message(&self) -> (r: String)
        ensures
            r@ == message_of(*self),
    {
        match self {
            Error::Graph => String::from_str("failed to read graph."),
            Error::Layout => String::from_str("failed to layout."),
            Error::Render => String::from_str("failed to render."),
            Error::FromBytesWithNul(NulError::InteriorNul { position }) => {
                let mut s = String::from_str("data provided contains an interior nul byte at byte pos ");
                push_decimal(&mut s, *position);
                s
            },
            Error::FromBytesWithNul(NulError::NotNulTerminated) => String::from_str(
                "data provided is not nul terminated",
            ),
        }
    }
}

} // verus!
