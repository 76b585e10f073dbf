use vstd::prelude::*;
use vstd::string::StringExecFns;

verus! {

/// What `str::trim` leaves of a text.
pub uninterp spec fn trimmed_of(s: Seq<char>) -> Seq<char>;

/// Relies on str::trim: the text without leading and trailing whitespace, which
/// depends on the text alone.
#[verifier::external_body]
fn trim_text(s: &str) -> (r: &str)
    ensures
        r@ == trimmed_of(s@),
{
    s.trim()
}

/// The value of a hexadecimal digit of either case.
pub open spec fn hex_value(c: char) -> Option<u8> {
    if '0' <= c && c <= '9' {
        Some((c as u32 - '0' as u32) as u8)
    } else if 'a' <= c && c <= 'f' {
        Some((c as u32 - 'a' as u32 + 10) as u8)
    } else if 'A' <= c && c <= 'F' {
        Some((c as u32 - 'A' as u32 + 10) as u8)
    } else {
        None
    }
}

/// The number that one or two characters give in base 16, as `u8::from_str_radix` reads
/// them: digits only, where a two-character field may also be a plus sign and a digit.
pub open spec fn hex_field(f: Seq<char>) -> Option<u8> {
    if f.len() == 1 {
        hex_value(f[0])
    } else if f.len() == 2 {
        match (hex_value(f[0]), hex_value(f[1])) {
            (Some(h), Some(l)) => Some((16 * h + l) as u8),
            (None, Some(l)) => if f[0] == '+' {
                Some(l)
            } else {
                None
            },
            _ => None,
        }
    } else {
        None
    }
}

/// The colour that `#RGB`, `#RRGGBB` or `#RRGGBBAA` names; a one-digit channel `x` stands
/// for `xx`, and the alpha channel is left out.
pub open spec fn hex_color(s: Seq<char>) -> Option<(u8, u8, u8)> {
    if s.len() == 0 || s[0] != '#' {
        None
    } else {
        let h = s.drop_first();
        let w: int = if h.len() == 3 {
            1
        } else if h.len() == 6 || h.len() == 8 {
            2
        } else {
            0
        };
        if w == 0 {
            None
        } else {
            match (
                hex_field(h.subrange(0, w)),
                hex_field(h.subrange(w, 2 * w)),
                hex_field(h.subrange(2 * w, 3 * w)),
            ) {
                (Some(r), Some(g), Some(b)) => if w == 1 {
                    Some(((17 * r) as u8, (17 * g) as u8, (17 * b) as u8))
                } else {
                    Some((r, g, b))
                },
                _ => None,
            }
        }
    }
}

fn hex_value_of(c: char) -> (r: Option<u8>)
    ensures
        r == hex_value(c),
{
    if '0' <= c && c <= '9' {
        Some((c as u32 - '0' as u32) as u8)
    } else if 'a' <= c && c <= 'f' {
        Some((c as u32 - 'a' as u32 + 10) as u8)
    } else if 'A' <= c && c <= 'F' {
        Some((c as u32 - 'A' as u32 + 10) as u8)
    } else {
        None
    }
}

fn hex_field_of(chars: &Vec<char>, from: usize, w: usize) -> (r: Option<u8>)
    requires
        w == 1 || w == 2,
        from + w <= chars@.len(),
    ensures
        r == hex_field(chars@.subrange(from as int, from + w)),
{
    let _len = chars.len();
    let ghost f = chars@.subrange(from as int, from + w);
    assert(f[0] == chars@[from as int]);
    if w == 1 {
        return hex_value_of(chars[from]);
    }
    assert(f[1] == chars@[from + 1]);
    match (hex_value_of(chars[from]), hex_value_of(chars[from + 1])) {
        (Some(h), Some(l)) => Some(16 * h + l),
        (None, Some(l)) => if chars[from] == '+' {
            Some(l)
        } else {
            None
        },
        _ => None,
    }
}

/// The characters of a text.
pub(crate) fn chars_of(s: &str) -> (r: Vec<char>)
    ensures
        r@ == s@,
{
    let mut r: Vec<char> = Vec::new();
    let n = s.unicode_len();
    let mut i: usize = 0;
    while i < n
        invariant
            n == s@.len(),
            i <= n,
            r@ == s@.subrange(0, i as int),
        decreases n - i,
    {
        r.push(s.get_char(i));
        i = i + 1;
        assert(r@ =~= s@.subrange(0, i as int));
    }
    assert(r@ =~= s@);
    r
}

/// The colour that a text already free of surrounding whitespace names.
pub fn parse_trimmed_hex_color(color: &str) -> (r: Option<(u8, u8, u8)>)
    ensures
        r == hex_color(color@),
{
    let s = chars_of(color);
    if s.len() == 0 || s[0] != '#' {
        return None;
    }
    let n = s.len() - 1;
    let w: usize = if n == 3 {
        1
    } else if n == 6 || n == 8 {
        2
    } else {
        0
    };
    if w == 0 {
        return None;
    }
    let ghost h = s@.drop_first();
    assert(h.subrange(0, w as int) =~= s@.subrange(1, 1 + w));
    assert(h.subrange(w as int, 2 * w) =~= s@.subrange(1 + w, 1 + 2 * w));
    assert(h.subrange(2 * w, 3 * w) =~= s@.subrange(1 + 2 * w, 1 + 3 * w));
    match (hex_field_of(&s, 1, w), hex_field_of(&s, 1 + w, w), hex_field_of(&s, 1 + 2 * w, w)) {
        (Some(r), Some(g), Some(b)) => if w == 1 {
            Some((17 * r, 17 * g, 17 * b))
        } else {
            Some((r, g, b))
        },
        _ => None,
    }
}

/// The colour that a hex colour text names, surrounding whitespace aside.
pub fn parse_hex_color(color: &str) -> (r: Option<(u8, u8, u8)>)
    ensures
        r == hex_color(trimmed_of(color@)),
{
    parse_trimmed_hex_color(trim_text(color))
}

/// The lowercase hexadecimal digits, by value.
pub open spec fn hex_digits() -> Seq<char> {
    seq!['0', '1', '2', '3', '4', '5', '6', '7', '8', '9', 'a', 'b', 'c', 'd', 'e', 'f']
}

/// The text of one hexadecimal digit.
pub(crate) fn digit_text(d: u8) -> (r: &'static str)
    requires
        d < 16,
    ensures
        r@ == seq![hex_digits()[d as int]],
{
    proof {
        reveal_strlit("0");
        reveal_strlit("1");
        reveal_strlit("2");
        reveal_strlit("3");
        reveal_strlit("4");
        reveal_strlit("5");
        reveal_strlit("6");
        reveal_strlit("7");
        reveal_strlit("8");
        reveal_strlit("9");
        reveal_strlit("a");
        reveal_strlit("b");
        reveal_strlit("c");
        reveal_strlit("d");
        reveal_strlit("e");
        reveal_strlit("f");
    }
    if d == 0 {
        "0"
    } else if d == 1 {
        "1"
    } else if d == 2 {
        "2"
    } else if d == 3 {
        "3"
    } else if d == 4 {
        "4"
    } else if d == 5 {
        "5"
    } else if d == 6 {
        "6"
    } else if d == 7 {
        "7"
    } else if d == 8 {
        "8"
    } else if d == 9 {
        "9"
    } else if d == 10 {
        "a"
    } else if d == 11 {
        "b"
    } else if d == 12 {
        "c"
    } else if d == 13 {
        "d"
    } else if d == 14 {
        "e"
    } else {
        "f"
    }
}

/// The two lowercase hexadecimal digits of a byte.
pub open spec fn hex2(b: u8) -> Seq<char> {
    seq![hex_digits()[b as int / 16], hex_digits()[b as int % 16]]
}

fn hex2_text(b: u8) -> (r: String)
    ensures
        r@ == hex2(b),
{
    let r = String::from_str(digit_text(b / 16)).concat(digit_text(b % 16));
    assert(r@ =~= hex2(b));
    r
}

/// The terminal control sequence that sets the cursor colour.
pub open spec fn cursor_color_text(c: (u8, u8, u8)) -> Seq<char> {
    "\x1b]12;rgb:"@ + hex2(c.0) + "/"@ + hex2(c.1) + "/"@ + hex2(c.2) + "\x07"@
}

/// The control sequence that sets the cursor to the colour that `color_hex` names, or
/// nothing when it names none.
pub fn set_cursor_color(color_hex: &str) -> (r: Option<String>)
    ensures
        match hex_color(trimmed_of(color_hex@)) {
            Some(c) => r matches Some(t) && t@ == cursor_color_text(c),
            None => r is None,
        },
{
    proof {
        reveal_strlit("\x1b]12;rgb:");
        reveal_strlit("/");
        reveal_strlit("\x07");
    }
    match parse_hex_color(color_hex) {
        Some((red, green, blue)) => {
            let t = String::from_str("\x1b]12;rgb:").concat(hex2_text(red).as_str()).concat(
                "/",
            ).concat(hex2_text(green).as_str()).concat("/").concat(hex2_text(blue).as_str()).concat(
                "\x07",
            );
            assert(t@ =~= cursor_color_text((red, green, blue)));
            Some(t)
        },
        None => None,
    }
}

/// The control sequence that gives the cursor back its default colour.
pub fn reset_cursor_color() -> (r: String)
    ensures
        r@ == "\x1b]112\x07"@,
{
    String::from_str("\x1b]112\x07")
}

} // verus!
