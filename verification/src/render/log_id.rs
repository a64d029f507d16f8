//! Render log-ids.
use vstd::prelude::*;
use vstd::string::StringExecFns;

verus! {

/// Errors of the UMI parser.
#[derive(Debug, Clone, PartialEq, Eq)]
pub enum UmiParserError {
    /// The element kind at the given position is unknown.
    UnknownKind(u8),
    /// A property is missing from the element at the given position.
    MissingProperty(String, u8),
    /// A property value of the element at the given position is invalid.
    InvalidPropertyValue(String, u8),
    /// No Unimarkup document was detected.
    NoUnimarkupDetected,
    /// The element at the given position has no parent element with depth 0.
    MissingParentElement(u8),
}

/// The value of a [`UmiParserError`].
pub enum UmiParserErrorV {
    UnknownKind(u8),
    MissingProperty(Seq<char>, u8),
    InvalidPropertyValue(Seq<char>, u8),
    NoUnimarkupDetected,
    MissingParentElement(u8),
}

impl View for UmiParserError {
    type V = UmiParserErrorV;

    open spec fn view(&self) -> UmiParserErrorV {
        match self {
            UmiParserError::UnknownKind(p) => UmiParserErrorV::UnknownKind(*p),
            UmiParserError::MissingProperty(name, p) => UmiParserErrorV::MissingProperty(name@, *p),
            UmiParserError::InvalidPropertyValue(name, p) => UmiParserErrorV::InvalidPropertyValue(name@, *p),
            UmiParserError::NoUnimarkupDetected => UmiParserErrorV::NoUnimarkupDetected,
            UmiParserError::MissingParentElement(p) => UmiParserErrorV::MissingParentElement(*p),
        }
    }
}

/// The decimal digit of a number below ten.
pub open spec fn digit_char(d: nat) -> char {
    if d == 0 {
        '0'
    } else if d == 1 {
        '1'
    } else if d == 2 {
        '2'
    } else if d == 3 {
        '3'
    } else if d == 4 {
        '4'
    } else if d == 5 {
        '5'
    } else if d == 6 {
        '6'
    } else if d == 7 {
        '7'
    } else if d == 8 {
        '8'
    } else {
        '9'
    }
}

/// The decimal text of a number, without leading zeros.
pub open spec fn decimal(n: nat) -> Seq<char>
    decreases n,
{
    if n < 10 {
        seq![digit_char(n)]
    } else {
        decimal(n / 10) + seq![digit_char(n % 10)]
    }
}

fn digit_str(d: u8) -> (r: &'static str)
    requires
        d < 10,
    ensures
        r@ == seq![digit_char(d as nat)],
{
    proof {
        reveal_strlit("0");
        reveal_strlit("1");
        reveal_strlit("2");
        reveal_strlit("3");
        reveal_strlit("4");
        reveal_strlit("5");
        reveal_strlit("6");
        reveal_strlit("7");
        reveal_strlit("8");
        reveal_strlit("9");
    }
    if d == 0 {
        "0"
    } else if d == 1 {
        "1"
    } else if d == 2 {
        "2"
    } else if d == 3 {
        "3"
    } else if d == 4 {
        "4"
    } else if d == 5 {
        "5"
    } else if d == 6 {
        "6"
    } else if d == 7 {
        "7"
    } else if d == 8 {
        "8"
    } else {
        "9"
    }
}

/// Appends the decimal text of a number.
fn append_decimal(s: &mut String, n: u8)
    ensures
        final(s)@ == old(s)@ + decimal(n as nat),
{
    let ghost before = s@;
    if n >= 100 {
        let h = n / 100;
        let t = (n / 10) % 10;
        let o = n % 10;
        assert((n / 10) / 10 == h && (n / 10) % 10 == t && n / 10 >= 10 && h < 10);
        assert(decimal((n / 10) as nat) == decimal(h as nat) + seq![digit_char(t as nat)]);
        assert(decimal(n as nat) == decimal((n / 10) as nat) + seq![digit_char(o as nat)]);
        s.append(digit_str(h));
        s.append(digit_str(t));
        s.append(digit_str(o));
        assert(s@ =~= before + decimal(n as nat));
    } else if n >= 10 {
        assert(decimal(n as nat) == decimal((n / 10) as nat) + seq![digit_char((n % 10) as nat)]);
        s.append(digit_str(n / 10));
        s.append(digit_str(n % 10));
        assert(s@ =~= before + decimal(n as nat));
    } else {
        s.append(digit_str(n));
        assert(s@ =~= before + decimal(n as nat));
    }
}

/// The message of each error.
pub open spec fn umi_error_text(e: UmiParserError) -> Seq<char> {
    match e {
        UmiParserError::UnknownKind(p) => "The UMI Parser failed to parse the Element Kind at Position "@
            + decimal(p as nat) + "."@,
        UmiParserError::MissingProperty(name, p) => "The UMI Parser failed to parse Property "@ + name@
            + " from Element at Position "@ + decimal(p as nat) + "."@,
        UmiParserError::InvalidPropertyValue(name, p) => "The UMI Parser failed to parse Property Value "@
            + name@ + " from Element at Position "@ + decimal(p as nat) + "."@,
        UmiParserError::NoUnimarkupDetected => "The UMI Parser failed to parse the corresponding Document."@,
        UmiParserError::MissingParentElement(p) => "The UMI Parser failed to parse the Element at Position "@
            + decimal(p as nat) + ", because it has not Parent Element wwith Depth 0."@,
    }
}

impl UmiParserError {
    /// The message of the error.
    pub fn to_string(&self) -> (r: String)
        ensures
            r@ == umi_error_text(*self),
    {
        let mut s = String::new();
        match self {
            UmiParserError::UnknownKind(p) => {
                s.append("The UMI Parser failed to parse the Element Kind at Position ");
                append_decimal(&mut s, *p);
                s.append(".");
            },
            UmiParserError::MissingProperty(name, p) => {
                s.append("The UMI Parser failed to parse Property ");
                s.append(name.as_str());
                s.append(" from Element at Position ");
                append_decimal(&mut s, *p);
                s.append(".");
            },
            UmiParserError::InvalidPropertyValue(name, p) => {
                s.append("The UMI Parser failed to parse Property Value ");
                s.append(name.as_str());
                s.append(" from Element at Position ");
                append_decimal(&mut s, *p);
                s.append(".");
            },
            UmiParserError::NoUnimarkupDetected => {
                s.append("The UMI Parser failed to parse the corresponding Document.");
            },
            UmiParserError::MissingParentElement(p) => {
                s.append("The UMI Parser failed to parse the Element at Position ");
                append_decimal(&mut s, *p);
                s.append(", because it has not Parent Element wwith Depth 0.");
            },
        }
        s
    }
}

} // verus!
