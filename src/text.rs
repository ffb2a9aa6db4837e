//! Small text helpers shared by the command grammar and message rendering.
use vstd::prelude::*;

verus! {

/// Whether `c` is an ASCII decimal digit.
pub open spec fn is_digit(c: char) -> bool {
    '0' <= c && c <= '9'
}

/// The value of a decimal digit.
pub open spec fn digit_value(c: char) -> nat {
    (c as u32 - '0' as u32) as nat
}

/// The digit character for `d < 10`.
pub open spec fn digit_char(d: nat) -> char {
    if d == 0 {
        '0'
    } else if d == 1 {
        '1'
    } else if d == 2 {
        '2'
    } else if d == 3 {
        '3'
    } else if d == 4 {
        '4'
    } else if d == 5 {
        '5'
    } else if d == 6 {
        '6'
    } else if d == 7 {
        '7'
    } else if d == 8 {
        '8'
    } else {
        '9'
    }
}

/// A non-empty run of decimal digits.
pub open spec fn is_decimal(s: Seq<char>) -> bool {
    s.len() > 0 && forall|i: int| 0 <= i < s.len() ==> is_digit(#[trigger] s[i])
}

/// The number that a run of digits denotes (most significant digit first).
pub open spec fn decimal_value(s: Seq<char>) -> nat
    decreases s.len(),
{
    if s.len() == 0 {
        0
    } else {
        decimal_value(s.drop_last()) * 10 + digit_value(s.last())
    }
}

/// The shortest decimal spelling of `n`.
pub open spec fn decimal(n: nat) -> Seq<char>
    decreases n,
{
    if n < 10 {
        seq![digit_char(n)]
    } else {
        decimal(n / 10).push(digit_char(n % 10))
    }
}

/// Whether two strings hold the same characters.
pub fn same_text(a: &str, b: &str) -> (r: bool)
    ensures
        r == (a@ == b@),
{
    let n = a.unicode_len();
    if n != b.unicode_len() {
        return false;
    }
    let mut i: usize = 0;
    while i < n
        invariant
            n == a@.len(),
            n == b@.len(),
            i <= n,
            forall|j: int| 0 <= j < i ==> a@[j] == b@[j],
        decreases n - i,
    {
        if a.get_char(i) != b.get_char(i) {
            return false;
        }
        i = i + 1;
    }
    assert(a@ =~= b@);
    true
}


/// A longer run of digits never denotes a smaller number.
proof fn lemma_decimal_value_prefix(s: Seq<char>, i: int)
    requires
        0 <= i <= s.len(),
        forall|j: int| 0 <= j < s.len() ==> is_digit(#[trigger] s[j]),
    ensures
        decimal_value(s.take(i)) <= decimal_value(s),
    decreases s.len(),
{
    if i < s.len() {
        assert(s.drop_last().take(i) =~= s.take(i));
        assert forall|j: int| 0 <= j < s.drop_last().len() implies is_digit(
            #[trigger] s.drop_last()[j],
        ) by {
            assert(s.drop_last()[j] == s[j]);
        }
        lemma_decimal_value_prefix(s.drop_last(), i);
    } else {
        assert(s.take(i) =~= s);
    }
}

/// Reads a decimal number that fits in `usize`; anything else is refused.
pub fn parse_decimal(s: &str) -> (r: Option<usize>)
    ensures
        r is Some <==> (is_decimal(s@) && decimal_value(s@) <= usize::MAX),
        r is Some ==> r->0 == decimal_value(s@),
{
    let n = s.unicode_len();
    if n == 0 {
        return None;
    }
    let mut acc: usize = 0;
    let mut i: usize = 0;
    while i < n
        invariant
            n == s@.len(),
            i <= n,
            acc == decimal_value(s@.take(i as int)),
            forall|j: int| 0 <= j < i ==> is_digit(#[trigger] s@[j]),
        decreases n - i,
    {
        let c = s.get_char(i);
        if c < '0' || c > '9' {
            return None;
        }
        let d = (c as u32 - '0' as u32) as usize;
        assert(s@.take(i + 1).drop_last() =~= s@.take(i as int));
        if acc > (usize::MAX - d) / 10 {
            proof {
                assert(decimal_value(s@.take(i + 1)) > usize::MAX) by (nonlinear_arith)
                    requires
                        decimal_value(s@.take(i + 1)) == acc * 10 + d,
                        acc > (usize::MAX - d) / 10,
                        d <= 9,
                ;
                if is_decimal(s@) {
                    lemma_decimal_value_prefix(s@, i + 1);
                }
            }
            return None;
        }
        acc = acc * 10 + d;
        i = i + 1;
    }
    assert(s@.take(n as int) =~= s@);
    Some(acc)
}

/// The single-character string for the digit `d`.
fn digit_str(d: usize) -> (r: &'static str)
    requires
        d < 10,
    ensures
        r@ == seq![digit_char(d as nat)],
{
    proof {
        reveal_strlit("0");
        reveal_strlit("1");
        reveal_strlit("2");
        reveal_strlit("3");
        reveal_strlit("4");
        reveal_strlit("5");
        reveal_strlit("6");
        reveal_strlit("7");
        reveal_strlit("8");
        reveal_strlit("9");
    }
    if d == 0 {
        "0"
    } else if d == 1 {
        "1"
    } else if d == 2 {
        "2"
    } else if d == 3 {
        "3"
    } else if d == 4 {
        "4"
    } else if d == 5 {
        "5"
    } else if d == 6 {
        "6"
    } else if d == 7 {
        "7"
    } else if d == 8 {
        "8"
    } else {
        "9"
    }
}

/// The decimal spelling of `n`.
pub fn decimal_string(n: usize) -> (r: String)
    ensures
        r@ == decimal(n as nat),
    decreases n,
{
    if n < 10 {
        String::from_str(digit_str(n))
    } else {
        let mut s = decimal_string(n / 10);
        s.append(digit_str(n % 10));
        s
    }
}

proof fn lemma_digit_char(d: nat)
    requires
        d < 10,
    ensures
        is_digit(digit_char(d)),
        digit_value(digit_char(d)) == d,
{
}

/// Reading back the decimal spelling of a number gives the number.
pub proof fn lemma_decimal_round_trip(n: nat)
    ensures
        is_decimal(decimal(n)),
        decimal_value(decimal(n)) == n,
    decreases n,
{
    lemma_digit_char(n % 10);
    if n < 10 {
        assert(decimal(n).drop_last() =~= Seq::<char>::empty());
        assert(decimal_value(Seq::<char>::empty()) == 0);
        assert(n % 10 == n);
    } else {
        lemma_decimal_round_trip(n / 10);
        let s = decimal(n);
        assert(s.drop_last() =~= decimal(n / 10));
        assert forall|i: int| 0 <= i < s.len() implies is_digit(#[trigger] s[i]) by {
            if i < s.len() - 1 {
                assert(s[i] == decimal(n / 10)[i]);
            }
        }
        assert(s.last() == digit_char(n % 10));
        assert(decimal_value(s) == decimal_value(decimal(n / 10)) * 10 + digit_value(
            digit_char(n % 10),
        ));
        assert(n == (n / 10) * 10 + n % 10) by (nonlinear_arith);
    }
}

/// The characters of each token.
pub open spec fn token_views(ts: Seq<String>) -> Seq<Seq<char>> {
    ts.map_values(|t: String| t@)
}

/// The characters that separate words.
pub open spec fn is_space(c: char) -> bool {
    c == ' ' || c == '\t' || c == '\n' || c == '\r'
}

/// A non-empty run of characters none of which is a space.
pub open spec fn is_word(w: Seq<char>) -> bool {
    w.len() > 0 && forall|i: int| 0 <= i < w.len() ==> !is_space(#[trigger] w[i])
}

/// The words of `s`: its maximal runs of non-space characters, in order.
pub open spec fn words(s: Seq<char>) -> Seq<Seq<char>>
    decreases s.len(),
{
    if s.len() == 0 {
        seq![]
    } else {
        let w = words(s.drop_last());
        let c = s.last();
        if is_space(c) {
            w
        } else if s.len() >= 2 && !is_space(s[s.len() - 2]) {
            w.update(w.len() - 1, w.last().push(c))
        } else {
            w.push(seq![c])
        }
    }
}

/// Words joined by single spaces.
pub open spec fn join_words(ts: Seq<Seq<char>>) -> Seq<char>
    decreases ts.len(),
{
    if ts.len() == 0 {
        seq![]
    } else if ts.len() == 1 {
        ts[0]
    } else {
        join_words(ts.drop_last()) + seq![' '] + ts.last()
    }
}

/// Splits a text into its words.
pub fn split_words(s: &str) -> (r: Vec<String>)
    ensures
        token_views(r@) == words(s@),
{
    let n = s.unicode_len();
    let mut out: Vec<String> = Vec::new();
    let mut current = String::new();
    let mut in_word = false;
    let mut i: usize = 0;
    while i < n
        invariant
            n == s@.len(),
            i <= n,
            in_word == (i > 0 && !is_space(s@[i - 1])),
            words(s@.take(i as int)) == token_views(out@) + if in_word {
                seq![current@]
            } else {
                Seq::<Seq<char>>::empty()
            },
        decreases n - i,
    {
        let c = s.get_char(i);
        let ghost before = words(s@.take(i as int));
        assert(s@.take(i + 1).drop_last() =~= s@.take(i as int));
        assert(s@.take(i + 1).last() == c);
        if c == ' ' || c == '\t' || c == '\n' || c == '\r' {
            if in_word {
                out.push(current);
                current = String::new();
                assert(token_views(out@) =~= before);
            }
            in_word = false;
        } else if in_word {
            let ghost prev = current@;
            let piece = s.substring_char(i, i + 1);
            assert(piece@ =~= seq![c]);
            current.append(piece);
            assert(current@ =~= prev.push(c));
            assert(token_views(out@) + seq![current@] =~= before.update(
                before.len() - 1,
                before.last().push(c),
            ));
        } else {
            current = String::from_str(s.substring_char(i, i + 1));
            in_word = true;
            assert(current@ =~= seq![c]);
            assert(token_views(out@) + seq![current@] =~= before.push(seq![c]));
        }
        i = i + 1;
    }
    if in_word {
        out.push(current);
    }
    assert(s@.take(n as int) =~= s@);
    assert(token_views(out@) =~= words(s@));
    out
}

proof fn lemma_words_trailing_space(p: Seq<char>)
    ensures
        words(p + seq![' ']) == words(p),
{
    assert((p + seq![' ']).drop_last() =~= p);
}

proof fn lemma_words_append_word(y: Seq<char>, w: Seq<char>)
    requires
        y.len() == 0 || is_space(y.last()),
        is_word(w),
    ensures
        words(y + w) == words(y).push(w),
    decreases w.len(),
{
    let s = y + w;
    if w.len() == 1 {
        assert(s.drop_last() =~= y);
        assert(seq![w[0]] =~= w);
    } else {
        let w1 = w.drop_last();
        assert forall|i: int| 0 <= i < w1.len() implies !is_space(#[trigger] w1[i]) by {
            assert(w1[i] == w[i]);
        }
        lemma_words_append_word(y, w1);
        assert(s.drop_last() =~= y + w1);
        assert(s[s.len() - 2] == w[w.len() - 2]);
        assert(w1.push(w.last()) =~= w);
        assert(words(y).push(w1).update(words(y).len() as int, w1.push(w.last())) =~= words(
            y,
        ).push(w));
    }
}

/// Splitting words joined by single spaces gives the words back.
pub proof fn lemma_words_join(ts: Seq<Seq<char>>)
    requires
        forall|i: int| 0 <= i < ts.len() ==> is_word(#[trigger] ts[i]),
    ensures
        words(join_words(ts)) == ts,
    decreases ts.len(),
{
    if ts.len() == 0 {
        assert(words(join_words(ts)) =~= ts);
    } else if ts.len() == 1 {
        lemma_words_append_word(Seq::<char>::empty(), ts[0]);
        assert(Seq::<char>::empty() + ts[0] =~= ts[0]);
        assert(Seq::<Seq<char>>::empty().push(ts[0]) =~= ts);
    } else {
        let init = ts.drop_last();
        assert forall|i: int| 0 <= i < init.len() implies is_word(#[trigger] init[i]) by {
            assert(init[i] == ts[i]);
        }
        lemma_words_join(init);
        let y = join_words(init) + seq![' '];
        lemma_words_trailing_space(join_words(init));
        assert(is_word(ts.last()));
        lemma_words_append_word(y, ts.last());
        assert(init.push(ts.last()) =~= ts);
    }
}

/// The decimal spelling of a number is a word.
pub proof fn lemma_decimal_is_word(n: nat)
    ensures
        is_word(decimal(n)),
{
    lemma_decimal_round_trip(n);
    assert forall|i: int| 0 <= i < decimal(n).len() implies !is_space(#[trigger] decimal(n)[i]) by {
        assert(is_digit(decimal(n)[i]));
    }
}

} // verus!
