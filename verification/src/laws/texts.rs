//! Text: what cutting it up, putting it together and writing numbers come to.

use vstd::prelude::*;
use vstd::string::*;

use crate::text::{concatenated, decimal, decimal_int, digits_value, first_chars, hex, hex_digit};
use crate::text::{hex_number, index_value, is_blank, is_digit, is_space, joined, occurs_in, pieces};
use crate::text::{trimmed, trimmed_end, trimmed_left, trimmed_right, trimmed_start, upper};
use crate::text::{without_plus, word_state, words};

verus! {

// ── Trimming ─────────────────────────────────────────────────────────────────

/// White space is a blank, a tab or a line break, among others, and nothing that can
/// be seen in ASCII.
pub proof fn lemma_white_space(c: char)
    ensures
        is_space(' ') && is_space('\t') && is_space('\n') && is_space('\r'),
        '!' <= c <= '~' ==> !is_space(c),
{
}

proof fn lemma_trimmed_left(s: Seq<char>)
    ensures
        ({
            let t = trimmed_left(s);
            &&& t.len() <= s.len()
            &&& t == s.skip(s.len() - t.len())
            &&& is_blank(s.take(s.len() - t.len()))
            &&& (t.len() > 0 ==> !is_space(t[0]))
        }),
    decreases s.len(),
{
    let t = trimmed_left(s);
    if s.len() > 0 && is_space(s[0]) {
        let r = s.skip(1);
        lemma_trimmed_left(r);
        assert(t =~= s.skip(s.len() - t.len()));
        let cut = s.take(s.len() - t.len());
        assert forall|i: int| 0 <= i < cut.len() implies is_space(#[trigger] cut[i]) by {
            if i > 0 {
                assert(is_space(r.take(r.len() - t.len())[i - 1]));
            }
        }
    } else {
        assert(s.skip(0) =~= s);
        assert(s.take(0).len() == 0);
    }
}

proof fn lemma_trimmed_right(s: Seq<char>)
    ensures
        ({
            let t = trimmed_right(s);
            &&& t.len() <= s.len()
            &&& t == s.take(t.len() as int)
            &&& is_blank(s.skip(t.len() as int))
            &&& (t.len() > 0 ==> !is_space(t.last()))
        }),
    decreases s.len(),
{
    let t = trimmed_right(s);
    if s.len() > 0 && is_space(s.last()) {
        let r = s.drop_last();
        lemma_trimmed_right(r);
        assert(t =~= s.take(t.len() as int));
        let cut = s.skip(t.len() as int);
        assert forall|i: int| 0 <= i < cut.len() implies is_space(#[trigger] cut[i]) by {
            if i < cut.len() - 1 {
                assert(is_space(r.skip(t.len() as int)[i]));
            }
        }
    } else {
        assert(s.take(s.len() as int) =~= s);
        assert(s.skip(s.len() as int).len() == 0);
    }
}

/// A text is its trimmed form with white space on either side, and the trimmed form
/// has none there.
pub proof fn lemma_trimmed(s: Seq<char>)
    ensures
        exists|a: Seq<char>, b: Seq<char>| #[trigger]
            is_blank(a) && #[trigger] is_blank(b) && s == a + trimmed(s) + b,
        trimmed(s).len() > 0 ==> !is_space(trimmed(s)[0]) && !is_space(trimmed(s).last()),
{
    let l = trimmed_left(s);
    let t = trimmed(s);
    lemma_trimmed_left(s);
    lemma_trimmed_right(l);
    let a = s.take(s.len() - l.len());
    let b = l.skip(t.len() as int);
    assert(is_blank(a) && is_blank(b));
    assert(s =~= a + t + b);
    if t.len() > 0 {
        assert(t[0] == l[0]);
    }
}

/// White space around a text does not show in its trimmed form.
pub proof fn lemma_trimming_undoes_padding(a: Seq<char>, s: Seq<char>, b: Seq<char>)
    requires
        is_blank(a),
        is_blank(b),
        s.len() > 0 ==> !is_space(s[0]) && !is_space(s.last()),
    ensures
        trimmed(a + s + b) == s,
{
    let w = a + s + b;
    let l = trimmed_left(w);
    let t = trimmed(w);
    lemma_trimmed_left(w);
    lemma_trimmed_right(l);
    let x = w.len() - l.len();
    if s.len() > 0 {
        assert(w[a.len() as int] == s[0]);
        if x > a.len() {
            assert(is_space(w.take(x)[a.len() as int]));
        }
        if x < a.len() {
            assert(l[0] == w[x] && w[x] == a[x]);
        }
        assert(x == a.len());
        assert(l =~= s + b);
        assert(l[s.len() - 1] == s.last());
        if t.len() < s.len() {
            assert(is_space(l.skip(t.len() as int)[s.len() - 1 - t.len()]));
        }
        if t.len() > s.len() {
            assert(t.last() == l[t.len() - 1] && l[t.len() - 1] == b[t.len() - 1 - s.len()]);
        }
        assert(t =~= s);
    } else {
        if l.len() > 0 {
            assert(l[0] == w[x]);
            if x < a.len() {
                assert(w[x] == a[x]);
            } else {
                assert(w[x] == b[x - a.len()]);
            }
        }
        assert(t =~= s);
    }
}

/// Trimming a character off the front takes every one of it that stands there, and
/// nothing else; off the end likewise.
pub proof fn lemma_trimmed_of_a_char(s: Seq<char>, c: char)
    ensures
        ({
            let t = trimmed_start(s, c);
            &&& t.len() <= s.len()
            &&& t == s.skip(s.len() - t.len())
            &&& forall|i: int| 0 <= i < s.len() - t.len() ==> #[trigger] s[i] == c
            &&& (t.len() > 0 ==> t[0] != c)
        }),
        ({
            let t = trimmed_end(s, c);
            &&& t.len() <= s.len()
            &&& t == s.take(t.len() as int)
            &&& forall|i: int| t.len() <= i < s.len() ==> #[trigger] s[i] == c
            &&& (t.len() > 0 ==> t.last() != c)
        }),
    decreases s.len(),
{
    let t = trimmed_start(s, c);
    if s.len() > 0 && s[0] == c {
        let r = s.skip(1);
        lemma_trimmed_of_a_char(r, c);
        assert(t =~= s.skip(s.len() - t.len()));
        assert forall|i: int| 0 <= i < s.len() - t.len() implies #[trigger] s[i] == c by {
            if i > 0 {
                assert(r[i - 1] == c);
            }
        }
    } else {
        assert(s.skip(0) =~= s);
    }
    let e = trimmed_end(s, c);
    if s.len() > 0 && s.last() == c {
        let r = s.drop_last();
        lemma_trimmed_of_a_char(r, c);
        assert(e =~= s.take(e.len() as int));
        assert forall|i: int| e.len() <= i < s.len() implies #[trigger] s[i] == c by {
            if i < s.len() - 1 {
                assert(r[i] == c);
            }
        }
    } else {
        assert(s.take(s.len() as int) =~= s);
    }
}

/// The first so many characters of a text are a prefix of it, as long as asked or
/// the whole text.
pub proof fn lemma_first_chars(s: Seq<char>, n: nat)
    ensures
        first_chars(s, n).is_prefix_of(s),
        first_chars(s, n).len() == if s.len() <= n {
            s.len()
        } else {
            n
        },
{
    assert(first_chars(s, n) =~= s.subrange(0, first_chars(s, n).len() as int));
}

// ── Words ────────────────────────────────────────────────────────────────────

/// Whether a text holds no white space.
pub open spec fn spaceless(s: Seq<char>) -> bool {
    forall|i: int| 0 <= i < s.len() ==> !is_space(#[trigger] s[i])
}

/// A text without white space is one word, and white space alone is none.
pub proof fn lemma_one_word(s: Seq<char>)
    ensures
        spaceless(s) && s.len() > 0 ==> words(s) == seq![s],
        is_blank(s) ==> words(s) == Seq::<Seq<char>>::empty(),
{
    lemma_one_word_state(s);
    if spaceless(s) && s.len() > 0 {
        assert(words(s) =~= seq![s]);
    }
}

proof fn lemma_one_word_state(s: Seq<char>)
    ensures
        spaceless(s) ==> word_state(s) == (Seq::<Seq<char>>::empty(), s),
        is_blank(s) ==> word_state(s) == (Seq::<Seq<char>>::empty(), Seq::<char>::empty()),
    decreases s.len(),
{
    if s.len() > 0 {
        let r = s.drop_last();
        lemma_one_word_state(r);
        if spaceless(s) {
            assert(spaceless(r)) by {
                assert forall|i: int| 0 <= i < r.len() implies !is_space(#[trigger] r[i]) by {
                    assert(r[i] == s[i]);
                }
            }
            assert(!is_space(s[s.len() - 1]));
            assert(r.push(s.last()) =~= s);
        }
        if is_blank(s) {
            assert(is_blank(r)) by {
                assert forall|i: int| 0 <= i < r.len() implies is_space(#[trigger] r[i]) by {
                    assert(r[i] == s[i]);
                }
            }
            assert(is_space(s[s.len() - 1]));
        }
    } else {
        assert(s =~= Seq::<char>::empty());
    }
}

proof fn lemma_word_state_after(a: Seq<char>, c: char, b: Seq<char>)
    requires
        is_space(c),
    ensures
        word_state(a.push(c) + b) == (words(a) + word_state(b).0, word_state(b).1),
    decreases b.len(),
{
    let s = a.push(c) + b;
    if b.len() == 0 {
        assert(s =~= a.push(c));
        assert(s.drop_last() =~= a);
        assert(words(a) + Seq::<Seq<char>>::empty() =~= words(a));
    } else {
        let r = b.drop_last();
        lemma_word_state_after(a, c, r);
        assert(s.drop_last() =~= a.push(c) + r);
        assert(s.last() == b.last());
        let (done, open_word) = word_state(r);
        assert(words(a) + done.push(open_word) =~= (words(a) + done).push(open_word));
    }
}

/// White space parts the words on either side of it.
pub proof fn lemma_words_are_apart(a: Seq<char>, c: char, b: Seq<char>)
    requires
        is_space(c),
    ensures
        words(a.push(c) + b) == words(a) + words(b),
{
    lemma_word_state_after(a, c, b);
    let (done, open_word) = word_state(b);
    assert(words(a.push(c) + b) =~= words(a) + words(b));
}

// ── Pieces ───────────────────────────────────────────────────────────────────

/// Splitting at a character that a text does not hold gives the text.
pub proof fn lemma_one_piece(s: Seq<char>, c: char)
    requires
        !s.contains(c),
    ensures
        pieces(s, c) == seq![s],
    decreases s.len(),
{
    if s.len() > 0 {
        let r = s.drop_last();
        assert forall|i: int| 0 <= i < r.len() implies r[i] != c by {
            assert(s[i] == r[i]);
            assert(s.contains(s[i]));
        }
        lemma_one_piece(r, c);
        assert(s.contains(s[s.len() - 1]));
        assert(r.push(s.last()) =~= s);
        assert(pieces(s, c) =~= seq![s]);
    } else {
        assert(s =~= Seq::<char>::empty());
    }
}

/// A separator parts the pieces on either side of it.
pub proof fn lemma_pieces_are_apart(a: Seq<char>, c: char, b: Seq<char>)
    ensures
        pieces(a.push(c) + b, c) == pieces(a, c) + pieces(b, c),
        pieces(b, c).len() > 0,
    decreases b.len(),
{
    let s = a.push(c) + b;
    if b.len() == 0 {
        assert(s =~= a.push(c));
        assert(s.drop_last() =~= a);
        assert(pieces(s, c) =~= pieces(a, c) + pieces(b, c));
    } else {
        let r = b.drop_last();
        lemma_pieces_are_apart(a, c, r);
        assert(s.drop_last() =~= a.push(c) + r);
        assert(s.last() == b.last());
        assert(pieces(s, c) =~= pieces(a, c) + pieces(b, c));
    }
}

/// Joining the pieces with the separator gives the text back.
pub proof fn lemma_pieces_join(s: Seq<char>, c: char)
    ensures
        pieces(s, c).len() > 0,
        joined(pieces(s, c), seq![c]) == s,
    decreases s.len(),
{
    let p = pieces(s, c);
    if s.len() > 0 {
        let r = s.drop_last();
        let before = pieces(r, c);
        lemma_pieces_join(r, c);
        if s.last() == c {
            assert(p.drop_last() =~= before);
            assert(joined(p, seq![c]) =~= s);
        } else {
            assert(p.drop_last() =~= before.drop_last());
            assert(p.last() =~= before.last().push(s.last()));
            if before.len() == 1 {
                assert(joined(before, seq![c]) == before[0]);
                assert(joined(p, seq![c]) == p[0]);
                assert(p[0] =~= s);
            } else {
                assert(joined(p, seq![c]) =~= joined(before, seq![c]).push(s.last()));
                assert(r.push(s.last()) =~= s);
            }
        }
    } else {
        assert(p[0] =~= s);
    }
}

/// Joining puts the separator before each part but the first; putting together puts
/// nothing.
pub proof fn lemma_joined(parts: Seq<Seq<char>>, sep: Seq<char>, last: Seq<char>)
    ensures
        joined(seq![last], sep) == last,
        parts.len() > 0 ==> joined(parts.push(last), sep) == joined(parts, sep) + sep + last,
        concatenated(parts.push(last)) == concatenated(parts) + last,
        concatenated(Seq::empty()) == Seq::<char>::empty(),
{
    assert(parts.push(last).drop_last() =~= parts);
}

// ── Numbers ──────────────────────────────────────────────────────────────────

/// A number is written in decimal digits, most significant first and without leading
/// zeros, and reads back.
pub proof fn lemma_decimal(n: nat)
    ensures
        forall|i: int| 0 <= i < decimal(n).len() ==> '0' <= #[trigger] decimal(n)[i] <= '9',
        decimal(n).len() > 0,
        decimal(n)[0] == '0' ==> n == 0,
        digits_value(decimal(n)) == n,
        n >= 10 ==> decimal(n).drop_last() == decimal(n / 10),
        decimal(n).last() as int == '0' as int + n % 10,
    decreases n,
{
    reveal_with_fuel(digits_value, 3);
    let d = decimal(n);
    if n < 10 {
        assert(d.drop_last() =~= Seq::<char>::empty());
        assert(digits_value(d.drop_last()) == 0);
    } else {
        lemma_decimal(n / 10);
        assert(d.drop_last() =~= decimal(n / 10));
        assert(n == (n / 10) * 10 + n % 10);
        assert forall|i: int| 0 <= i < d.len() implies '0' <= #[trigger] d[i] <= '9' by {
            if i < d.len() - 1 {
                assert(d[i] == decimal(n / 10)[i]);
            }
        }
        assert(d[0] == decimal(n / 10)[0]);
    }
}

/// Different numbers are written differently, and a negative one has a sign.
pub proof fn lemma_numbers_are_told_apart(a: int, b: int)
    ensures
        decimal_int(a) == decimal_int(b) <==> a == b,
        a < 0 ==> decimal_int(a)[0] == '-' && decimal_int(a).skip(1) == decimal((-a) as nat),
        a >= 0 ==> decimal_int(a) == decimal(a as nat),
{
    let (x, y) = (if a < 0 {
        (-a) as nat
    } else {
        a as nat
    }, if b < 0 {
        (-b) as nat
    } else {
        b as nat
    });
    lemma_decimal(x);
    lemma_decimal(y);
    if a < 0 {
        assert(decimal_int(a).skip(1) =~= decimal(x));
    }
    if b < 0 {
        assert(decimal_int(b).skip(1) =~= decimal(y));
    }
    if a >= 0 && b < 0 {
        assert(decimal_int(a)[0] != decimal_int(b)[0]);
    }
    if a < 0 && b >= 0 {
        assert(decimal_int(a)[0] != decimal_int(b)[0]);
    }
}

proof fn lemma_code(c: char)
    ensures
        c as u32 == c as int,
{
}

/// An index reads as the number that it is written as, with or without a plus sign;
/// anything else, a sign alone and a negative number among it, is no index.
pub proof fn lemma_index(n: nat, s: Seq<char>)
    ensures
        n <= usize::MAX ==> index_value(decimal(n)) == Some(n) && index_value(
            seq!['+'] + decimal(n),
        ) == Some(n),
        n > usize::MAX ==> index_value(decimal(n)) is None,
        index_value(s) is Some ==> s.len() > 0 && (s[0] == '+' || '0' <= s[0] <= '9') && (
        forall|i: int| 1 <= i < s.len() ==> '0' <= #[trigger] s[i] <= '9'),
{
    lemma_decimal(n);
    let d = decimal(n);
    let p = seq!['+'] + d;
    assert(without_plus(d) == d);
    assert(without_plus(p) =~= d);
    assert forall|i: int| 0 <= i < d.len() implies is_digit(#[trigger] d[i]) by {}
    if index_value(s) is Some {
        let w = without_plus(s);
        if s.len() > 0 && s[0] == '+' {
            assert forall|i: int| 1 <= i < s.len() implies '0' <= #[trigger] s[i] <= '9' by {
                assert(is_digit(w[i - 1]));
                lemma_code(s[i]);
            }
        } else {
            assert(is_digit(w[0]));
            lemma_code(s[0]);
            assert forall|i: int| 1 <= i < s.len() implies '0' <= #[trigger] s[i] <= '9' by {
                assert(is_digit(w[i]));
                lemma_code(s[i]);
            }
        }
    }
}

/// In hexadecimal a byte is two digits, the more significant first, and the bytes
/// stand in their order.
pub proof fn lemma_hex(b: Seq<u8>, x: u8)
    ensures
        hex(b.push(x)) == hex(b) + seq![
            "0123456789abcdef"@[x as int / 16],
            "0123456789abcdef"@[x as int % 16],
        ],
        hex(Seq::empty()) == Seq::<char>::empty(),
{
    assert(b.push(x).drop_last() =~= b);
    lemma_hex_digit(x as nat / 16);
    lemma_hex_digit(x as nat % 16);
    assert(hex(b.push(x)) =~= hex(b) + seq![
        "0123456789abcdef"@[x as int / 16],
        "0123456789abcdef"@[x as int % 16],
    ]);
}

proof fn lemma_hex_digit(n: nat)
    requires
        n < 16,
    ensures
        hex_digit(n) == "0123456789abcdef"@[n as int],
{
    reveal_strlit("0123456789abcdef");
    let t = "0123456789abcdef"@;
    assert(t[0] == '0' && t[1] == '1' && t[2] == '2' && t[3] == '3' && t[4] == '4' && t[5] == '5'
        && t[6] == '6' && t[7] == '7' && t[8] == '8' && t[9] == '9' && t[10] == 'a' && t[11] == 'b'
        && t[12] == 'c' && t[13] == 'd' && t[14] == 'e' && t[15] == 'f');
}

/// A number in hexadecimal has the digits of its sixteenth part in front of the last
/// one.
pub proof fn lemma_hex_number(n: nat)
    ensures
        hex_number(n).len() > 0,
        hex_number(n).last() == "0123456789abcdef"@[n as int % 16],
        n >= 16 ==> hex_number(n).drop_last() == hex_number(n / 16),
        n < 16 ==> hex_number(n).len() == 1,
{
    lemma_hex_digit(n % 16);
    if n >= 16 {
        assert(hex_number(n).drop_last() =~= hex_number(n / 16));
    }
}

/// In upper case every small letter of ASCII is its capital, and anything else is as
/// it was.
pub proof fn lemma_upper(s: Seq<char>, i: int)
    requires
        0 <= i < s.len(),
    ensures
        upper(s).len() == s.len(),
        'a' <= s[i] <= 'z' ==> upper(s)[i] as int == s[i] as int - 32,
        !('a' <= s[i] <= 'z') ==> upper(s)[i] == s[i],
        upper(upper(s)) == upper(s),
{
    let u = upper(s);
    lemma_code(s[i]);
    assert forall|j: int| 0 <= j < s.len() implies upper(u)[j] == u[j] by {}
    assert(upper(u) =~= u);
}

/// A text occurs in another if and only if the other is something, the text, and
/// something.
pub proof fn lemma_occurs(p: Seq<char>, a: Seq<char>, b: Seq<char>, s: Seq<char>)
    ensures
        occurs_in(p, a + p + b),
        occurs_in(p, s) ==> exists|x: Seq<char>, y: Seq<char>| s == #[trigger] (x + p + y),
{
    let w = a + p + b;
    assert(w.subrange(a.len() as int, (a.len() + p.len()) as int) =~= p);
    assert(crate::text::occurs_at(p, w, a.len() as int));
    if occurs_in(p, s) {
        let i = choose|i: int| crate::text::occurs_at(p, s, i);
        assert(s =~= s.take(i) + p + s.skip(i + p.len())) by {
            assert forall|k: int| i <= k < i + p.len() implies s[k] == p[k - i] by {
                assert(s.subrange(i, i + p.len())[k - i] == p[k - i]);
            }
        }
    }
}

} // verus!
