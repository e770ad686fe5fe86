//! Character classes and digit-string arithmetic shared by the dictionary,
//! the parsers and the check-digit algorithms.

use vstd::prelude::*;

verus! {

/// `c` is a decimal digit `'0'..='9'`.
pub open spec fn is_dec_digit(c: char) -> bool {
    48 <= c as u32 <= 57
}

/// Numeric value of a decimal digit character.
pub open spec fn digit_val(c: char) -> int {
    c as u32 - 48
}

/// Every character of `s` is a decimal digit.
pub open spec fn is_digits(s: Seq<char>) -> bool {
    forall|i: int| 0 <= i < s.len() ==> is_dec_digit(#[trigger] s[i])
}

/// Numeric value of a digit string, most significant digit first.
pub open spec fn digits_val(s: Seq<char>) -> int
    decreases s.len(),
{
    if s.len() == 0 {
        0
    } else {
        10 * digits_val(s.drop_last()) + digit_val(s.last())
    }
}

/// `c` belongs to GS1 "character set 82", the set permitted in
/// alphanumeric AI values.
pub open spec fn is_cset82(c: char) -> bool {
    let u = c as u32;
    u == 33 || u == 34 || (37 <= u && u <= 63) || (65 <= u && u <= 90) || u == 95 || (97 <= u
        && u <= 122)
}

/// `c` may appear in the value of an unknown (pass-through) AI: printable
/// ASCII other than the `'^'` separator.
pub open spec fn is_passthrough_char(c: char) -> bool {
    let u = c as u32;
    32 <= u <= 126 && u != 94
}

pub fn char_is_digit(c: char) -> (r: bool)
    ensures
        r == is_dec_digit(c),
{
    let u = c as u32;
    48 <= u && u <= 57
}

pub fn char_digit_val(c: char) -> (v: u8)
    requires
        is_dec_digit(c),
    ensures
        v == digit_val(c),
        v <= 9,
{
    (c as u32 - 48) as u8
}

pub fn char_is_cset82(c: char) -> (r: bool)
    ensures
        r == is_cset82(c),
{
    let u = c as u32;
    u == 33 || u == 34 || (37 <= u && u <= 63) || (65 <= u && u <= 90) || u == 95 || (97 <= u
        && u <= 122)
}

pub fn char_is_passthrough(c: char) -> (r: bool)
    ensures
        r == is_passthrough_char(c),
{
    let u = c as u32;
    32 <= u && u <= 126 && u != 94
}

/// A one-character string slice for each decimal digit value, so that
/// verified code can append a computed digit to a `String`.
pub fn digit_str(d: u8) -> (s: &'static str)
    requires
        d <= 9,
    ensures
        s@.len() == 1,
        is_dec_digit(s@[0]),
        digit_val(s@[0]) == d,
{
    proof {
        reveal_strlit("0");
        reveal_strlit("1");
        reveal_strlit("2");
        reveal_strlit("3");
        reveal_strlit("4");
        reveal_strlit("5");
        reveal_strlit("6");
        reveal_strlit("7");
        reveal_strlit("8");
        reveal_strlit("9");
    }
    match d {
        0 => "0",
        1 => "1",
        2 => "2",
        3 => "3",
        4 => "4",
        5 => "5",
        6 => "6",
        7 => "7",
        8 => "8",
        _ => "9",
    }
}


/// Index of the first occurrence of `c` in `s`, or `s.len()` when there
/// is none.
pub open spec fn pos_of(s: Seq<char>, c: char) -> int
    decreases s.len(),
{
    if s.len() == 0 {
        0
    } else if s[0] == c {
        0
    } else {
        1 + pos_of(s.skip(1), c)
    }
}

pub proof fn lemma_pos_of_at(s: Seq<char>, c: char, p: int)
    requires
        0 <= p <= s.len(),
        forall|i: int| 0 <= i < p ==> s[i] != c,
        p < s.len() ==> s[p] == c,
    ensures
        pos_of(s, c) == p,
    decreases s.len(),
{
    if s.len() > 0 && s[0] != c {
        assert(p >= 1);
        assert(forall|i: int| 0 <= i < p - 1 ==> s.skip(1)[i] == s[i + 1]);
        lemma_pos_of_at(s.skip(1), c, p - 1);
    }
}

pub proof fn lemma_pos_of_props(s: Seq<char>, c: char)
    ensures
        0 <= pos_of(s, c) <= s.len(),
        forall|i: int| 0 <= i < pos_of(s, c) ==> s[i] != c,
        pos_of(s, c) < s.len() ==> s[pos_of(s, c)] == c,
    decreases s.len(),
{
    if s.len() > 0 && s[0] != c {
        lemma_pos_of_props(s.skip(1), c);
        assert(forall|i: int| 0 <= i < pos_of(s.skip(1), c) ==> s.skip(1)[i] != c);
        assert(forall|i: int| 1 <= i < pos_of(s, c) ==> s[i] == s.skip(1)[i - 1]);
    }
}

/// Executable first-occurrence search, from position `from`.
pub fn find_char(s: &str, c: char, from: usize) -> (j: usize)
    requires
        from <= s@.len(),
    ensures
        from <= j <= s@.len(),
        j - from == pos_of(s@.skip(from as int), c),
{
    let n = s.unicode_len();
    let mut j = from;
    while j < n && s.get_char(j) != c
        invariant
            from <= j <= n,
            n == s@.len(),
            forall|i: int| from <= i < j ==> s@[i] != c,
        decreases n - j,
    {
        j = j + 1;
    }
    proof {
        let t = s@.skip(from as int);
        assert(forall|i: int| 0 <= i < j - from ==> t[i] == s@[i + from]);
        assert(j < n ==> t[j - from] == s@[j as int]);
        lemma_pos_of_at(t, c, j - from);
    }
    j
}

/// `c` is a hexadecimal digit.
pub open spec fn is_hex_digit(c: char) -> bool {
    is_dec_digit(c) || (65 <= c as u32 <= 70) || (97 <= c as u32 <= 102)
}

/// Numeric value of a hexadecimal digit character.
pub open spec fn hex_val(c: char) -> int {
    if is_dec_digit(c) {
        digit_val(c)
    } else if 65 <= c as u32 <= 70 {
        c as u32 - 55
    } else {
        c as u32 - 87
    }
}

pub fn char_is_hex_digit(c: char) -> (r: bool)
    ensures
        r == is_hex_digit(c),
{
    let u = c as u32;
    (48 <= u && u <= 57) || (65 <= u && u <= 70) || (97 <= u && u <= 102)
}

pub fn char_hex_val(c: char) -> (v: u8)
    requires
        is_hex_digit(c),
    ensures
        v == hex_val(c),
        v <= 15,
{
    let u = c as u32;
    if 48 <= u && u <= 57 {
        (u - 48) as u8
    } else if 65 <= u && u <= 70 {
        (u - 55) as u8
    } else {
        (u - 87) as u8
    }
}

/// Upper-case hexadecimal digit character for a value below sixteen.
pub open spec fn hex_digit_char(d: int) -> char {
    if d < 10 {
        ((d + 48) as u32) as char
    } else {
        ((d + 55) as u32) as char
    }
}

/// A one-character string slice for each upper-case hexadecimal digit.
pub fn hex_digit_str(d: u8) -> (s: &'static str)
    requires
        d <= 15,
    ensures
        s@.len() == 1,
        s@[0] == hex_digit_char(d as int),
{
    proof {
        reveal_strlit("0");
        reveal_strlit("1");
        reveal_strlit("2");
        reveal_strlit("3");
        reveal_strlit("4");
        reveal_strlit("5");
        reveal_strlit("6");
        reveal_strlit("7");
        reveal_strlit("8");
        reveal_strlit("9");
        reveal_strlit("A");
        reveal_strlit("B");
        reveal_strlit("C");
        reveal_strlit("D");
        reveal_strlit("E");
        reveal_strlit("F");
    }
    match d {
        0 => "0",
        1 => "1",
        2 => "2",
        3 => "3",
        4 => "4",
        5 => "5",
        6 => "6",
        7 => "7",
        8 => "8",
        9 => "9",
        10 => "A",
        11 => "B",
        12 => "C",
        13 => "D",
        14 => "E",
        _ => "F",
    }
}

/// A string of `n` zero characters.
pub open spec fn zeros(n: int) -> Seq<char>
    decreases n,
{
    if n <= 0 {
        Seq::empty()
    } else {
        zeros(n - 1) + seq!['0']
    }
}

/// Replace every occurrence of `from` with `to`; `to_str` is the
/// one-character string that spells `to`.
pub fn replace_char(s: &str, from: char, to: char, to_str: &str) -> (r: String)
    requires
        to_str@ == seq![to],
    ensures
        r@ == s@.map_values(|c: char| if c == from {
            to
        } else {
            c
        }),
{
    let ghost f = |c: char| if c == from {
        to
    } else {
        c
    };
    let ghost target = s@.map_values(f);
    let n = s.unicode_len();
    let mut out = String::new();
    let mut i: usize = 0;
    proof {
        assert(out@ =~= target.take(0));
    }
    while i < n
        invariant
            i <= n,
            n == s@.len(),
            target == s@.map_values(f),
            to_str@ == seq![to],
            (f == |c: char| if c == from {
                to
            } else {
                c
            }),
            out@ == target.take(i as int),
        decreases n - i,
    {
        let c = s.get_char(i);
        if c == from {
            out.append(to_str);
        } else {
            let piece = s.substring_char(i, i + 1);
            proof {
                assert(piece@ =~= seq![s@[i as int]]);
            }
            out.append(piece);
        }
        proof {
            assert(target[i as int] == f(s@[i as int]));
            assert(out@ =~= target.take(i as int + 1));
        }
        i = i + 1;
    }
    proof {
        assert(target.take(n as int) =~= target);
    }
    out
}

/// A one-character string slice for each printable ASCII character, so
/// that verified code can append a computed character to a `String`.
#[verifier::rlimit(40)]
pub fn ascii_char_str(c: char) -> (s: &'static str)
    requires
        32 <= c as u32 <= 126,
    ensures
        s@.len() == 1,
        s@[0] == c,
{
    proof {
        reveal_strlit(" ");
        reveal_strlit("!");
        reveal_strlit("\"");
        reveal_strlit("#");
        reveal_strlit("$");
        reveal_strlit("%");
        reveal_strlit("&");
        reveal_strlit("'");
        reveal_strlit("(");
        reveal_strlit(")");
        reveal_strlit("*");
        reveal_strlit("+");
        reveal_strlit(",");
        reveal_strlit("-");
        reveal_strlit(".");
        reveal_strlit("/");
        reveal_strlit("0");
        reveal_strlit("1");
        reveal_strlit("2");
        reveal_strlit("3");
        reveal_strlit("4");
        reveal_strlit("5");
        reveal_strlit("6");
        reveal_strlit("7");
        reveal_strlit("8");
        reveal_strlit("9");
        reveal_strlit(":");
        reveal_strlit(";");
        reveal_strlit("<");
        reveal_strlit("=");
        reveal_strlit(">");
        reveal_strlit("?");
        reveal_strlit("@");
        reveal_strlit("A");
        reveal_strlit("B");
        reveal_strlit("C");
        reveal_strlit("D");
        reveal_strlit("E");
        reveal_strlit("F");
        reveal_strlit("G");
        reveal_strlit("H");
        reveal_strlit("I");
        reveal_strlit("J");
        reveal_strlit("K");
        reveal_strlit("L");
        reveal_strlit("M");
        reveal_strlit("N");
        reveal_strlit("O");
        reveal_strlit("P");
        reveal_strlit("Q");
        reveal_strlit("R");
        reveal_strlit("S");
        reveal_strlit("T");
        reveal_strlit("U");
        reveal_strlit("V");
        reveal_strlit("W");
        reveal_strlit("X");
        reveal_strlit("Y");
        reveal_strlit("Z");
        reveal_strlit("[");
        reveal_strlit("\\");
        reveal_strlit("]");
        reveal_strlit("^");
        reveal_strlit("_");
        reveal_strlit("`");
        reveal_strlit("a");
        reveal_strlit("b");
        reveal_strlit("c");
        reveal_strlit("d");
        reveal_strlit("e");
        reveal_strlit("f");
        reveal_strlit("g");
        reveal_strlit("h");
        reveal_strlit("i");
        reveal_strlit("j");
        reveal_strlit("k");
        reveal_strlit("l");
        reveal_strlit("m");
        reveal_strlit("n");
        reveal_strlit("o");
        reveal_strlit("p");
        reveal_strlit("q");
        reveal_strlit("r");
        reveal_strlit("s");
        reveal_strlit("t");
        reveal_strlit("u");
        reveal_strlit("v");
        reveal_strlit("w");
        reveal_strlit("x");
        reveal_strlit("y");
        reveal_strlit("z");
        reveal_strlit("{");
        reveal_strlit("|");
        reveal_strlit("}");
        reveal_strlit("~");
    }
    match c {
        ' ' => " ",
        '!' => "!",
        '"' => "\"",
        '#' => "#",
        '$' => "$",
        '%' => "%",
        '&' => "&",
        '\'' => "'",
        '(' => "(",
        ')' => ")",
        '*' => "*",
        '+' => "+",
        ',' => ",",
        '-' => "-",
        '.' => ".",
        '/' => "/",
        '0' => "0",
        '1' => "1",
        '2' => "2",
        '3' => "3",
        '4' => "4",
        '5' => "5",
        '6' => "6",
        '7' => "7",
        '8' => "8",
        '9' => "9",
        ':' => ":",
        ';' => ";",
        '<' => "<",
        '=' => "=",
        '>' => ">",
        '?' => "?",
        '@' => "@",
        'A' => "A",
        'B' => "B",
        'C' => "C",
        'D' => "D",
        'E' => "E",
        'F' => "F",
        'G' => "G",
        'H' => "H",
        'I' => "I",
        'J' => "J",
        'K' => "K",
        'L' => "L",
        'M' => "M",
        'N' => "N",
        'O' => "O",
        'P' => "P",
        'Q' => "Q",
        'R' => "R",
        'S' => "S",
        'T' => "T",
        'U' => "U",
        'V' => "V",
        'W' => "W",
        'X' => "X",
        'Y' => "Y",
        'Z' => "Z",
        '[' => "[",
        '\\' => "\\",
        ']' => "]",
        '^' => "^",
        '_' => "_",
        '`' => "`",
        'a' => "a",
        'b' => "b",
        'c' => "c",
        'd' => "d",
        'e' => "e",
        'f' => "f",
        'g' => "g",
        'h' => "h",
        'i' => "i",
        'j' => "j",
        'k' => "k",
        'l' => "l",
        'm' => "m",
        'n' => "n",
        'o' => "o",
        'p' => "p",
        'q' => "q",
        'r' => "r",
        's' => "s",
        't' => "t",
        'u' => "u",
        'v' => "v",
        'w' => "w",
        'x' => "x",
        'y' => "y",
        'z' => "z",
        '{' => "{",
        '|' => "|",
        '}' => "}",
        _ => "~",
    }
}

} // verus!

