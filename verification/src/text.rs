use vstd::prelude::*;
use vstd::std_specs::iter::IteratorSpec;
use vstd::utf8::encode_utf8;
use vstd::utf8::is_ascii_chars;

verus! {

/// The Unicode lowercase mapping of a character sequence, as `str::to_lowercase`
/// computes it.
pub uninterp spec fn lowercased(s: Seq<char>) -> Seq<char>;

/// The lowercase form of an ASCII capital letter; any other character as it
/// is.
pub open spec fn ascii_lower(c: char) -> char {
    if 'A' <= c <= 'Z' {
        ((c as u8) + 32) as char
    } else {
        c
    }
}

/// `s` with every ASCII capital letter lowered.
pub open spec fn ascii_lowercased(s: Seq<char>) -> Seq<char> {
    Seq::new(s.len(), |i: int| ascii_lower(s[i]))
}

/// The text that case-insensitive comparison goes by: for ASCII text, its
/// letters lowered one by one; for any other text, its Unicode lowercase
/// mapping.
pub open spec fn folded(s: Seq<char>) -> Seq<char> {
    if is_ascii_chars(s) {
        ascii_lowercased(s)
    } else {
        lowercased(s)
    }
}

/// Calls `str::to_lowercase`. The mapping is fixed by the Unicode tables that std
/// ships and depends on nothing but the input, so the result is given a name
/// rather than a definition. Of ASCII text it lowers the letters `A` to `Z` and
/// leaves every other character as it is.
#[verifier::external_body]
fn to_lowercase(s: &str) -> (r: String)
    ensures
        r@ == lowercased(s@),
        is_ascii_chars(s@) ==> r@ == ascii_lowercased(s@),
{
    s.to_lowercase()
}

/// The text that case-insensitive comparison of `s` goes by.
pub fn fold_case(s: &str) -> (r: String)
    ensures
        r@ == folded(s@),
{
    to_lowercase(s)
}

/// Lowering the letters of ASCII text keeps its length, keeps it ASCII, and
/// keeps a prefix a prefix.
pub proof fn lemma_ascii_lowercased_keeps_prefix(p: Seq<char>, a: Seq<char>)
    requires
        p.is_prefix_of(a),
    ensures
        ascii_lowercased(p).is_prefix_of(ascii_lowercased(a)),
        ascii_lowercased(a).len() == a.len(),
        is_ascii_chars(a) ==> is_ascii_chars(p),
{
    assert(ascii_lowercased(p) =~= ascii_lowercased(a).subrange(0, p.len() as int)) by {
        assert forall|i: int| 0 <= i < p.len() implies ascii_lowercased(p)[i] == ascii_lowercased(
            a,
        )[i] by {
            assert(p[i] == a.subrange(0, p.len() as int)[i]);
        }
    }
    if is_ascii_chars(a) {
        assert forall|i: int| 0 <= i < p.len() implies '\0' <= #[trigger] p[i] <= '\u{7f}' by {
            assert(p[i] == a.subrange(0, p.len() as int)[i]);
            assert(a[i] <= '\u{7f}');
        }
    }
}

/// Every character takes at least one byte in UTF-8.
pub proof fn lemma_chars_at_most_bytes(chars: Seq<char>)
    ensures
        chars.len() <= encode_utf8(chars).len(),
    decreases chars.len(),
{
    if chars.len() > 0 {
        lemma_chars_at_most_bytes(chars.drop_first());
    }
}

/// The number of characters of a string fits in `usize`.
pub(crate) fn char_count_fits(s: &str)
    ensures
        s@.len() <= usize::MAX,
{
    let bytes = s.as_bytes();
    let n = bytes.len();
    proof {
        lemma_chars_at_most_bytes(s@);
    }
}

/// Whether two strings hold the same characters.
pub fn same_text(a: &str, b: &str) -> (same: bool)
    ensures
        same == (a@ == b@),
{
    let mut left = a.chars();
    let mut right = b.chars();
    loop
        invariant
            (left.remaining() == right.remaining()) == (a@ == b@),
            left.obeys_prophetic_iter_laws(),
            right.obeys_prophetic_iter_laws(),
            left.decrease() is Some,
        decreases left.decrease()->0,
    {
        let ghost before_left = left.remaining();
        let ghost before_right = right.remaining();
        let x = left.next();
        let y = right.next();
        match (x, y) {
            (Some(p), Some(q)) => {
                if p != q {
                    return false;
                }
                proof {
                    assert(before_left =~= seq![p] + left.remaining());
                    assert(before_right =~= seq![q] + right.remaining());
                }
            },
            (None, None) => {
                proof {
                    assert(before_left =~= before_right);
                }
                return true;
            },
            _ => {
                return false;
            },
        }
    }
}

/// The character that stands for the decimal digit `d`.
pub open spec fn digit_char(d: nat) -> char {
    ('0' as nat + d) as char
}

/// The decimal numeral of `n`, without sign or leading zeros.
pub open spec fn decimal(n: nat) -> Seq<char>
    decreases n,
{
    if n < 10 {
        seq![digit_char(n)]
    } else {
        decimal(n / 10).push(digit_char(n % 10))
    }
}

/// The one-character text of a decimal digit.
fn digit_text(d: u32) -> (t: &'static str)
    requires
        d < 10,
    ensures
        t@ == seq![digit_char(d as nat)],
{
    proof {
        reveal_strlit("0");
        reveal_strlit("1");
        reveal_strlit("2");
        reveal_strlit("3");
        reveal_strlit("4");
        reveal_strlit("5");
        reveal_strlit("6");
        reveal_strlit("7");
        reveal_strlit("8");
        reveal_strlit("9");
    }
    let t = if d == 0 {
        "0"
    } else if d == 1 {
        "1"
    } else if d == 2 {
        "2"
    } else if d == 3 {
        "3"
    } else if d == 4 {
        "4"
    } else if d == 5 {
        "5"
    } else if d == 6 {
        "6"
    } else if d == 7 {
        "7"
    } else if d == 8 {
        "8"
    } else {
        "9"
    };
    assert(t@ =~= seq![digit_char(d as nat)]);
    t
}

/// Writes `n` in decimal.
pub fn decimal_string(n: u32) -> (s: String)
    ensures
        s@ == decimal(n as nat),
    decreases n,
{
    if n < 10 {
        String::from_str(digit_text(n))
    } else {
        let head = decimal_string(n / 10);
        let s = head.concat(digit_text(n % 10));
        assert(s@ =~= decimal(n as nat));
        s
    }
}

} // verus!
