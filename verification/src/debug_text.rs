use vstd::prelude::*;

verus! {

/// What `Debug` writes for a string slice: the text in double quotes, with quotes,
/// backslashes and unprintable characters escaped.
pub uninterp spec fn str_debug_text(s: Seq<char>) -> Seq<char>;

/// Renders `s` with `format!("{:?}", s)`.
///
/// Trusted: std's `Debug` for `str` is a function of the text alone; its escaping rules
/// are not restated here.
#[verifier::external_body]
fn debug_str(s: &str) -> (r: String)
    ensures
        r@ == str_debug_text(s@),
{
    format!("{:?}", s)
}

/// Appends one character with `String::push`.
///
/// Trusted: std documents that `push` appends the character to the end of the string.
#[verifier::external_body]
fn push_char(s: &mut String, c: char)
    ensures
        final(s)@ == old(s)@.push(c),
{
    s.push(c);
}

/// The text of the string `s` as `Debug` shows it.
pub fn quoted(s: &str) -> (r: String)
    ensures
        r@ == str_debug_text(s@),
{
    debug_str(s)
}

pub open spec fn digit_char(d: int) -> char {
    if d == 0 {
        '0'
    } else if d == 1 {
        '1'
    } else if d == 2 {
        '2'
    } else if d == 3 {
        '3'
    } else if d == 4 {
        '4'
    } else if d == 5 {
        '5'
    } else if d == 6 {
        '6'
    } else if d == 7 {
        '7'
    } else if d == 8 {
        '8'
    } else {
        '9'
    }
}

/// The decimal digits of `n`, without leading zeros.
pub open spec fn nat_text(n: nat) -> Seq<char>
    decreases n,
{
    if n < 10 {
        seq![digit_char(n as int)]
    } else {
        nat_text(n / 10).push(digit_char((n % 10) as int))
    }
}

/// The decimal text of `n`, with a leading `-` when it is negative.
pub open spec fn int_text(n: int) -> Seq<char> {
    if n < 0 {
        seq!['-'] + nat_text((-n) as nat)
    } else {
        nat_text(n as nat)
    }
}

fn digit_char_of(d: u64) -> (c: char)
    requires
        d < 10,
    ensures
        c == digit_char(d as int),
{
    if d == 0 {
        '0'
    } else if d == 1 {
        '1'
    } else if d == 2 {
        '2'
    } else if d == 3 {
        '3'
    } else if d == 4 {
        '4'
    } else if d == 5 {
        '5'
    } else if d == 6 {
        '6'
    } else if d == 7 {
        '7'
    } else if d == 8 {
        '8'
    } else {
        '9'
    }
}

fn digits_of(n: u64) -> (v: Vec<char>)
    ensures
        v@ == nat_text(n as nat),
    decreases n,
{
    if n < 10 {
        let mut v = Vec::new();
        v.push(digit_char_of(n));
        assert(v@ =~= seq![digit_char(n as int)]);
        v
    } else {
        let mut v = digits_of(n / 10);
        v.push(digit_char_of(n % 10));
        v
    }
}

/// The decimal text of `n`, as `Display` and `Debug` write an integer.
pub fn int_text_of(n: i64) -> (r: String)
    ensures
        r@ == int_text(n as int),
{
    let magnitude: u64 = if n < 0 {
        (0i128 - n as i128) as u64
    } else {
        n as u64
    };
    let digits = digits_of(magnitude);
    let mut r = if n < 0 {
        String::from_str("-")
    } else {
        String::new()
    };
    let ghost prefix = r@;
    proof {
        reveal_strlit("-");
    }
    let mut i: usize = 0;
    while i < digits.len()
        invariant
            i <= digits@.len(),
            r@ == prefix + digits@.take(i as int),
        decreases digits@.len() - i,
    {
        push_char(&mut r, digits[i]);
        assert(digits@.take(i + 1) =~= digits@.take(i as int).push(digits@[i as int]));
        i = i + 1;
    }
    assert(digits@.take(i as int) =~= digits@);
    assert(r@ =~= int_text(n as int));
    r
}

pub open spec fn bool_text(b: bool) -> Seq<char> {
    if b {
        "true"@
    } else {
        "false"@
    }
}

pub fn bool_text_of(b: bool) -> (r: String)
    ensures
        r@ == bool_text(b),
{
    if b {
        String::from_str("true")
    } else {
        String::from_str("false")
    }
}

/// `Some(<text>)` for a present value and `None` for an absent one, as `Debug` writes an
/// `Option`.
pub open spec fn option_text(t: Option<Seq<char>>) -> Seq<char> {
    match t {
        Some(x) => "Some("@ + x + ")"@,
        None => "None"@,
    }
}

pub fn option_text_of(t: Option<String>) -> (r: String)
    ensures
        r@ == option_text(match t {
            Some(x) => Some(x@),
            None => None,
        }),
{
    match t {
        Some(x) => {
            let mut r = String::from_str("Some(");
            r.append(x.as_str());
            r.append(")");
            r
        },
        None => String::from_str("None"),
    }
}

/// The `name: value` pairs of a struct's fields, separated by `, `.
pub open spec fn fields_text(fields: Seq<(Seq<char>, Seq<char>)>) -> Seq<char>
    decreases fields.len(),
{
    if fields.len() == 0 {
        seq![]
    } else if fields.len() == 1 {
        fields[0].0 + ": "@ + fields[0].1
    } else {
        fields_text(fields.drop_last()) + ", "@ + fields.last().0 + ": "@ + fields.last().1
    }
}

/// What `Debug` writes for a struct, given its name and the text of each field, as
/// `Formatter::debug_struct` lays it out on one line.
pub open spec fn struct_text(name: Seq<char>, fields: Seq<(Seq<char>, Seq<char>)>) -> Seq<char> {
    if fields.len() == 0 {
        name
    } else {
        name + " { "@ + fields_text(fields) + " }"@
    }
}

pub open spec fn field_texts(fields: Seq<(String, String)>) -> Seq<(Seq<char>, Seq<char>)> {
    fields.map_values(|f: (String, String)| (f.0@, f.1@))
}

/// Lays out a struct's debug text from its name and the text of each field.
pub fn struct_text_of(name: &str, fields: &Vec<(String, String)>) -> (r: String)
    ensures
        r@ == struct_text(name@, field_texts(fields@)),
{
    let mut r = String::from_str(name);
    if fields.len() == 0 {
        return r;
    }
    r.append(" { ");
    let mut i: usize = 0;
    while i < fields.len()
        invariant
            i <= fields@.len(),
            fields@.len() > 0,
            r@ == name@ + " { "@ + fields_text(field_texts(fields@).take(i as int)),
        decreases fields@.len() - i,
    {
        let ghost before = r@;
        if i > 0 {
            r.append(", ");
        }
        r.append(fields[i].0.as_str());
        r.append(": ");
        r.append(fields[i].1.as_str());
        proof {
            let all = field_texts(fields@);
            let next = all.take(i + 1);
            assert(next.drop_last() =~= all.take(i as int));
            assert(next.last() == (fields@[i as int].0@, fields@[i as int].1@));
            if i == 0 {
                assert(all.take(0) =~= Seq::<(Seq<char>, Seq<char>)>::empty());
                assert(fields_text(all.take(0)) =~= seq![]);
                assert(r@ =~= name@ + " { "@ + fields_text(next));
            } else {
                assert(r@ =~= name@ + " { "@ + fields_text(next));
            }
        }
        i = i + 1;
    }
    assert(field_texts(fields@).take(i as int) =~= field_texts(fields@));
    r.append(" }");
    r
}

/// A field of a struct's debug text.
pub fn field(name: &str, value: String) -> (r: (String, String))
    ensures
        r.0@ == name@,
        r.1@ == value@,
{
    (String::from_str(name), value)
}

} // verus!
