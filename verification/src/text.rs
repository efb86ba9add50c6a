//! Text shown in the picker: one-line previews of entries, entry counts,
//! and the whitespace rules they rest on.
use vstd::prelude::*;

verus! {

/// The longest preview, in characters, that a picker row shows.
pub const PREVIEW_MAX: usize = 54;

/// The character that ends a preview that was cut short.
pub const ELLIPSIS: char = '\u{2026}';

/// Unicode `White_Space`: the characters that separate words.
pub open spec fn is_space(c: char) -> bool {
    let v = c as u32;
    ||| 0x09 <= v <= 0x0D
    ||| v == 0x20
    ||| v == 0x85
    ||| v == 0xA0
    ||| v == 0x1680
    ||| 0x2000 <= v <= 0x200A
    ||| v == 0x2028
    ||| v == 0x2029
    ||| v == 0x202F
    ||| v == 0x205F
    ||| v == 0x3000
}

/// Whether every character of `s` is whitespace (so an empty text is blank).
pub open spec fn is_blank_text(s: Seq<char>) -> bool {
    forall|i: int| 0 <= i < s.len() ==> is_space(#[trigger] s[i])
}

/// The words of `s`: its maximal runs of non-whitespace characters, in order.
pub open spec fn words(s: Seq<char>) -> Seq<Seq<char>>
    decreases s.len(),
{
    if s.len() == 0 {
        seq![]
    } else {
        let p = s.drop_last();
        let c = s.last();
        if is_space(c) {
            words(p)
        } else if p.len() > 0 && !is_space(p.last()) {
            let w = words(p);
            w.update(w.len() - 1, w.last().push(c))
        } else {
            words(p).push(seq![c])
        }
    }
}

/// The words `ws` written one after another with a single space between each two.
pub open spec fn join_words(ws: Seq<Seq<char>>) -> Seq<char>
    decreases ws.len(),
{
    if ws.len() == 0 {
        seq![]
    } else if ws.len() == 1 {
        ws[0]
    } else {
        join_words(ws.drop_last()) + seq![' '] + ws.last()
    }
}

/// `s` on one line: its words separated by single spaces, nothing before or after.
pub open spec fn flattened(s: Seq<char>) -> Seq<char> {
    join_words(words(s))
}

/// The preview of `s`: the flattened text, cut to its first `PREVIEW_MAX - 1`
/// characters and an ellipsis when it is longer than `PREVIEW_MAX`.
pub open spec fn preview_of(s: Seq<char>) -> Seq<char> {
    let flat = flattened(s);
    if flat.len() <= PREVIEW_MAX {
        flat
    } else {
        flat.take(PREVIEW_MAX - 1).push(ELLIPSIS)
    }
}

/// Every word is non-empty and free of whitespace, and a text whose last
/// character is not whitespace has at least one word.
proof fn lemma_words_shape(s: Seq<char>)
    ensures
        forall|k: int| 0 <= k < words(s).len() ==> #[trigger] words(s)[k].len() > 0,
        forall|k: int, j: int|
            0 <= k < words(s).len() && 0 <= j < words(s)[k].len() ==> !is_space(
                #[trigger] words(s)[k][j],
            ),
        s.len() > 0 && !is_space(s.last()) ==> words(s).len() > 0,
    decreases s.len(),
{
    if s.len() > 0 {
        let p = s.drop_last();
        let c = s.last();
        lemma_words_shape(p);
        let w = words(p);
        if is_space(c) {
        } else if p.len() > 0 && !is_space(p.last()) {
            let w2 = w.update(w.len() - 1, w.last().push(c));
            assert forall|k: int| 0 <= k < w2.len() implies #[trigger] w2[k].len() > 0 by {
                if k < w.len() - 1 {
                    assert(w2[k] == w[k]);
                }
            }
            assert forall|k: int, j: int|
                0 <= k < w2.len() && 0 <= j < w2[k].len() implies !is_space(
                #[trigger] w2[k][j],
            ) by {
                if k < w.len() - 1 {
                    assert(w2[k] == w[k]);
                } else if j < w.last().len() {
                    assert(w2[k][j] == w[k][j]);
                }
            }
        } else {
            let w2 = w.push(seq![c]);
            assert forall|k: int| 0 <= k < w2.len() implies #[trigger] w2[k].len() > 0 by {
                if k < w.len() {
                    assert(w2[k] == w[k]);
                }
            }
            assert forall|k: int, j: int|
                0 <= k < w2.len() && 0 <= j < w2[k].len() implies !is_space(
                #[trigger] w2[k][j],
            ) by {
                if k < w.len() {
                    assert(w2[k] == w[k]);
                }
            }
        }
    }
}

/// A non-empty list of non-empty words joins to a non-empty text.
proof fn lemma_join_nonempty(ws: Seq<Seq<char>>)
    requires
        ws.len() > 0,
        ws.last().len() > 0,
    ensures
        join_words(ws).len() > 0,
{
}

/// Growing the last word by one character grows the joined text by that character.
proof fn lemma_join_extend_last(ws: Seq<Seq<char>>, c: char)
    requires
        ws.len() > 0,
    ensures
        join_words(ws.update(ws.len() - 1, ws.last().push(c))) == join_words(ws).push(c),
{
    let w2 = ws.update(ws.len() - 1, ws.last().push(c));
    if ws.len() > 1 {
        assert(w2.drop_last() =~= ws.drop_last());
    }
}

/// Adding a word adds a space (unless it is the first word) and the word.
proof fn lemma_join_push(ws: Seq<Seq<char>>, w: Seq<char>)
    ensures
        join_words(ws.push(w)) == (if ws.len() == 0 {
            w
        } else {
            join_words(ws) + seq![' '] + w
        }),
{
    assert(ws.push(w).drop_last() =~= ws);
}

/// No whitespace at the start, only plain spaces as whitespace, and never
/// two spaces in a row.
pub open spec fn single_spaced(u: Seq<char>) -> bool {
    &&& u.len() > 0 ==> !is_space(u[0])
    &&& forall|i: int| 0 <= i < u.len() && is_space(#[trigger] u[i]) ==> u[i] == ' '
    &&& forall|i: int| 0 < i < u.len() && is_space(#[trigger] u[i]) ==> !is_space(u[i - 1])
}

/// One tidy line: single-spaced and without whitespace at the end either.
pub open spec fn tidy_line(u: Seq<char>) -> bool {
    &&& single_spaced(u)
    &&& u.len() > 0 ==> !is_space(u.last())
}

/// Words of a single-spaced text join back to the text, less a trailing space.
proof fn lemma_flatten_single_spaced(u: Seq<char>)
    requires
        single_spaced(u),
    ensures
        flattened(u) == (if u.len() > 0 && is_space(u.last()) {
            u.drop_last()
        } else {
            u
        }),
    decreases u.len(),
{
    if u.len() > 0 {
        let p = u.drop_last();
        let c = u.last();
        assert(single_spaced(p)) by {
            assert forall|i: int| 0 <= i < p.len() && is_space(#[trigger] p[i]) implies p[i]
                == ' ' by {
                assert(p[i] == u[i]);
            }
            assert forall|i: int| 0 < i < p.len() && is_space(#[trigger] p[i]) implies !is_space(
                p[i - 1],
            ) by {
                assert(p[i] == u[i] && p[i - 1] == u[i - 1]);
            }
        }
        lemma_flatten_single_spaced(p);
        lemma_words_shape(p);
        if is_space(c) {
            assert(u.len() > 1);
            assert(!is_space(p.last())) by {
                assert(is_space(u[u.len() - 1]));
            }
        } else if p.len() > 0 && !is_space(p.last()) {
            lemma_join_extend_last(words(p), c);
            assert(p.push(c) =~= u);
        } else {
            lemma_join_push(words(p), seq![c]);
            if p.len() == 0 {
                assert(seq![c] =~= u);
            } else {
                assert(p.len() > 1);
                assert(p.drop_last().len() > 0);
                assert(words(p).len() > 0);
                assert(p.drop_last() + seq![' '] + seq![c] =~= u) by {
                    assert(p.last() == ' ');
                }
            }
        }
    }
}

/// Joining non-empty words that hold no whitespace gives a tidy line.
proof fn lemma_join_tidy(ws: Seq<Seq<char>>)
    requires
        forall|k: int| 0 <= k < ws.len() ==> #[trigger] ws[k].len() > 0,
        forall|k: int, j: int|
            0 <= k < ws.len() && 0 <= j < ws[k].len() ==> !is_space(#[trigger] ws[k][j]),
    ensures
        tidy_line(join_words(ws)),
    decreases ws.len(),
{
    if ws.len() == 1 {
        let u = ws[0];
        assert forall|i: int| 0 <= i < u.len() implies !is_space(#[trigger] u[i]) by {
            assert(ws[0][i] == u[i]);
        }
    } else if ws.len() > 1 {
        let init = ws.drop_last();
        assert forall|k: int| 0 <= k < init.len() implies #[trigger] init[k].len() > 0 by {
            assert(init[k] == ws[k]);
        }
        assert forall|k: int, j: int| 0 <= k < init.len() && 0 <= j < init[k].len() implies !is_space(
            #[trigger] init[k][j],
        ) by {
            assert(init[k] == ws[k]);
        }
        lemma_join_tidy(init);
        let a = join_words(init);
        let w = ws.last();
        assert(a.len() > 0) by {
            lemma_join_nonempty(init);
        }
        let u = a + seq![' '] + w;
        assert(u == join_words(ws));
        assert forall|j: int| 0 <= j < w.len() implies !is_space(#[trigger] w[j]) by {
            assert(ws[ws.len() - 1][j] == w[j]);
        }
        assert forall|i: int| 0 <= i < u.len() && is_space(#[trigger] u[i]) implies u[i] == ' ' by {
            if i < a.len() {
                assert(u[i] == a[i]);
            } else if i > a.len() {
                assert(u[i] == w[i - a.len() - 1]);
            }
        }
        assert forall|i: int| 0 < i < u.len() && is_space(#[trigger] u[i]) implies !is_space(
            u[i - 1],
        ) by {
            if i < a.len() {
                assert(u[i] == a[i] && u[i - 1] == a[i - 1]);
            } else if i == a.len() {
                assert(u[i - 1] == a.last());
            } else {
                assert(u[i] == w[i - a.len() - 1]);
            }
        }
        assert(u[0] == a[0]);
        assert(u.last() == w.last());
        assert(w[w.len() - 1] == w.last());
    }
}

/// The flattened text is a tidy line.
pub proof fn lemma_flattened_tidy(s: Seq<char>)
    ensures
        tidy_line(flattened(s)),
{
    lemma_words_shape(s);
    lemma_join_tidy(words(s));
}

/// A preview is one tidy line of at most `PREVIEW_MAX` characters.
pub proof fn lemma_preview_is_one_short_line(s: Seq<char>)
    ensures
        preview_of(s).len() <= PREVIEW_MAX,
        tidy_line(preview_of(s)),
{
    lemma_flattened_tidy(s);
    let flat = flattened(s);
    if flat.len() > PREVIEW_MAX {
        let t = flat.take(PREVIEW_MAX - 1);
        let u = t.push(ELLIPSIS);
        assert(!is_space(ELLIPSIS));
        assert forall|i: int| 0 <= i < u.len() && is_space(#[trigger] u[i]) implies u[i] == ' ' by {
            if i < t.len() {
                assert(u[i] == flat[i]);
            }
        }
        assert forall|i: int| 0 < i < u.len() && is_space(#[trigger] u[i]) implies !is_space(
            u[i - 1],
        ) by {
            if i < t.len() {
                assert(u[i] == flat[i] && u[i - 1] == flat[i - 1]);
            }
        }
        assert(u[0] == flat[0]);
    }
}

/// Flattening twice is flattening once.
pub proof fn lemma_flatten_idempotent(s: Seq<char>)
    ensures
        flattened(flattened(s)) == flattened(s),
{
    lemma_flattened_tidy(s);
    lemma_flatten_single_spaced(flattened(s));
}

/// A text that already is a tidy line of at most `PREVIEW_MAX` characters is
/// its own preview.
pub proof fn lemma_tidy_short_line_is_own_preview(s: Seq<char>)
    requires
        tidy_line(s),
        s.len() <= PREVIEW_MAX,
    ensures
        preview_of(s) == s,
{
    lemma_flatten_single_spaced(s);
}

/// Previewing a preview changes nothing.
pub proof fn lemma_preview_idempotent(s: Seq<char>)
    ensures
        preview_of(preview_of(s)) == preview_of(s),
{
    lemma_preview_is_one_short_line(s);
    lemma_flatten_single_spaced(preview_of(s));
}

/// Whether `c` is whitespace, by the Unicode `White_Space` property.
pub fn is_space_char(c: char) -> (r: bool)
    ensures
        r == is_space(c),
{
    let v = c as u32;
    (0x09 <= v && v <= 0x0D) || v == 0x20 || v == 0x85 || v == 0xA0 || v == 0x1680 || (0x2000
        <= v && v <= 0x200A) || v == 0x2028 || v == 0x2029 || v == 0x202F || v == 0x205F || v
        == 0x3000
}

/// Appends `c` to `s` (`String::push`).
#[verifier::external_body]
fn push_char(s: &mut String, c: char)
    ensures
        final(s)@ == old(s)@.push(c),
{
    s.push(c);
}

/// The characters of `text` with runs of whitespace collapsed to single spaces
/// and no whitespace at either end.
pub fn flatten(text: &str) -> (r: Vec<char>)
    ensures
        r@ == flattened(text@),
{
    let mut out: Vec<char> = Vec::new();
    let mut prev_space: bool = true;
    let ghost s = text@;
    for c in it: text.chars()
        invariant
            it.seq() == s,
            it.index() <= s.len(),
            out@ == flattened(s.take(it.index() as int)),
            prev_space == (it.index() == 0 || is_space(s[it.index() - 1])),
            out@.len() == 0 <==> words(s.take(it.index() as int)).len() == 0,
    {
        let ghost i = it.index();
        assert(i < s.len() && s[i as int] == c);
        let ghost p = s.take(i as int);
        let ghost q = s.take(i + 1);
        assert(q.drop_last() =~= p);
        assert(q.last() == c);
        proof {
            lemma_words_shape(p);
            lemma_words_shape(q);
        }
        if is_space_char(c) {
            prev_space = true;
        } else {
            if prev_space {
                proof {
                    lemma_join_push(words(p), seq![c]);
                }
                if out.len() > 0 {
                    out.push(' ');
                }
                out.push(c);
                assert(out@ =~= flattened(q));
            } else {
                assert(p.last() == s[i - 1]);
                proof {
                    lemma_join_extend_last(words(p), c);
                }
                out.push(c);
            }
            prev_space = false;
        }
    }
    assert(s.take(s.len() as int) =~= s);
    out
}

/// One tidy line per entry: newlines and runs of whitespace collapse to single
/// spaces, and a text longer than `PREVIEW_MAX` characters is cut to its first
/// `PREVIEW_MAX - 1` characters and an ellipsis. Lengths count characters.
pub fn preview(text: &str) -> (r: String)
    ensures
        r@ == preview_of(text@),
{
    let flat = flatten(text);
    let n: usize = if flat.len() <= PREVIEW_MAX {
        flat.len()
    } else {
        PREVIEW_MAX - 1
    };
    let mut out = String::new();
    let mut k: usize = 0;
    while k < n
        invariant
            n <= flat.len(),
            k <= n,
            out@ == flat@.take(k as int),
        decreases n - k,
    {
        push_char(&mut out, flat[k]);
        assert(flat@.take(k + 1) =~= flat@.take(k as int).push(flat@[k as int]));
        k = k + 1;
    }
    if flat.len() > PREVIEW_MAX {
        push_char(&mut out, ELLIPSIS);
    } else {
        assert(flat@.take(n as int) =~= flat@);
    }
    out
}


/// The decimal digit `d` (below ten) as a character.
pub open spec fn digit_char(d: nat) -> char {
    ((48 + d) as u8) as char
}

/// `n` written in decimal, without leading zeros.
pub open spec fn decimal(n: nat) -> Seq<char>
    decreases n,
{
    if n < 10 {
        seq![digit_char(n)]
    } else {
        decimal(n / 10).push(digit_char(n % 10))
    }
}

/// The label beside the picker's title: "1 entry", otherwise "<n> entries".
pub open spec fn entry_count_text(count: nat) -> Seq<char> {
    if count == 1 {
        "1 entry"@
    } else {
        decimal(count) + " entries"@
    }
}

/// Appends `n` in decimal to `out`.
pub fn push_decimal(out: &mut String, n: usize)
    ensures
        final(out)@ == old(out)@ + decimal(n as nat),
    decreases n,
{
    if n >= 10 {
        push_decimal(out, n / 10);
    }
    let d: u8 = (n % 10) as u8;
    let c = (48u8 + d) as char;
    push_char(out, c);
}

/// "1 entry" for one, "<count> entries" for any other count.
pub fn entry_count(count: usize) -> (r: String)
    ensures
        r@ == entry_count_text(count as nat),
{
    if count == 1 {
        String::from_str("1 entry")
    } else {
        let mut s = String::new();
        push_decimal(&mut s, count);
        s.append(" entries");
        s
    }
}

/// The number shown beside a picker row, one-based, for the rows that a
/// number key can pick (the first nine).
pub fn badge_label(index: usize) -> (r: Option<String>)
    ensures
        index < 9 ==> (r matches Some(label) && label@ == decimal((index + 1) as nat)),
        index >= 9 ==> r is None,
{
    if index < 9 {
        let mut s = String::new();
        push_decimal(&mut s, index + 1);
        Some(s)
    } else {
        None
    }
}

/// Whether `text` holds nothing but whitespace (`str::trim` would leave it empty).
pub fn is_blank(text: &str) -> (r: bool)
    ensures
        r == is_blank_text(text@),
{
    let ghost s = text@;
    for c in it: text.chars()
        invariant
            s == text@,
            it.seq() == s,
            it.index() <= s.len(),
            forall|j: int| 0 <= j < it.index() ==> is_space(#[trigger] s[j]),
    {
        let ghost i = it.index();
        assert(i < s.len() && s[i as int] == c);
        if !is_space_char(c) {
            assert(!is_space(s[i as int]));
            return false;
        }
    }
    true
}

/// Only whitespace separates words: no character beyond U+3000 is whitespace,
/// and of ASCII only the space and the tab, newline, vertical tab, form feed
/// and carriage return are.
pub proof fn lemma_whitespace_characters(c: char)
    ensures
        is_space(c) ==> (c as u32) <= 0x3000,
        (c as u32) < 0x80 ==> (is_space(c) <==> (c == ' ' || c == '\t' || c == '\n' || c
            == '\u{0B}' || c == '\u{0C}' || c == '\r')),
        0x3000 < (c as u32) ==> !is_space(c),
        0x3001 <= (c as u32) <= 0xFFFF ==> !is_space(c),
        is_space('\u{3000}') && is_space('\u{A0}') && is_space('\u{85}') && is_space('\u{2028}'),
{
}

/// A text of letters (no whitespace) is its own single word, so its preview is
/// the text itself when it is short enough.
pub proof fn lemma_preview_keeps_unspaced_text(s: Seq<char>)
    requires
        forall|i: int| 0 <= i < s.len() ==> !is_space(#[trigger] s[i]),
        s.len() <= PREVIEW_MAX,
    ensures
        preview_of(s) == s,
{
    assert forall|i: int| 0 <= i < s.len() && is_space(#[trigger] s[i]) implies s[i] == ' ' by {}
    assert forall|i: int| 0 < i < s.len() && is_space(#[trigger] s[i]) implies !is_space(s[i - 1]) by {}
    if s.len() > 0 {
        assert(s[s.len() - 1] == s.last());
    }
    lemma_tidy_short_line_is_own_preview(s);
}

/// The number that a decimal text stands for, read left to right.
pub open spec fn decimal_value(s: Seq<char>) -> int
    decreases s.len(),
{
    if s.len() == 0 {
        0
    } else {
        decimal_value(s.drop_last()) * 10 + (s.last() as u32 - 48)
    }
}

/// `decimal(n)` reads back as `n`, uses only the digits 0 to 9, and starts
/// with 0 only when it is "0".
pub proof fn lemma_decimal_reads_back(n: nat)
    ensures
        decimal_value(decimal(n)) == n,
        decimal(n).len() >= 1,
        forall|i: int| 0 <= i < decimal(n).len() ==> '0' <= #[trigger] decimal(n)[i] <= '9',
        decimal(n)[0] == '0' ==> n == 0,
    decreases n,
{
    let d = n % 10;
    assert(digit_char(d) as u32 == 48 + d);
    if n < 10 {
        assert(decimal(n).drop_last() =~= Seq::<char>::empty());
        assert(decimal(n).last() == digit_char(n));
        assert(n % 10 == n);
        assert(decimal_value(decimal(n)) == decimal_value(decimal(n).drop_last()) * 10 + (
        decimal(n).last() as u32 - 48));
        assert(decimal_value(Seq::<char>::empty()) == 0);
    } else {
        lemma_decimal_reads_back(n / 10);
        let d = decimal(n / 10);
        let s = decimal(n);
        assert(s.drop_last() =~= d);
        assert(s.last() == digit_char(n % 10));
        assert(n == (n / 10) * 10 + n % 10);
        assert(decimal_value(s) == decimal_value(s.drop_last()) * 10 + (s.last() as u32 - 48));
        assert(s[0] == d[0]);
        assert forall|i: int| 0 <= i < s.len() implies '0' <= #[trigger] s[i] <= '9' by {
            if i < d.len() {
                assert(s[i] == d[i]);
            }
        }
    }
}

/// Keeps the characters that are not whitespace.
pub open spec fn not_space() -> spec_fn(char) -> bool {
    |c: char| !is_space(c)
}

/// Flattening only touches whitespace: the other characters of the text are
/// all kept, in their order, and nothing else is added but single spaces.
pub proof fn lemma_flattened_keeps_the_other_characters(s: Seq<char>)
    ensures
        flattened(s).filter(not_space()) == s.filter(not_space()),
    decreases s.len(),
{
    reveal(Seq::filter);
    if s.len() > 0 {
        let p = s.drop_last();
        let c = s.last();
        let f = not_space();
        lemma_flattened_keeps_the_other_characters(p);
        lemma_words_shape(p);
        p.lemma_filter_push(c, f);
        assert(p.push(c) =~= s);
        if is_space(c) {
        } else if p.len() > 0 && !is_space(p.last()) {
            lemma_join_extend_last(words(p), c);
            flattened(p).lemma_filter_push(c, f);
        } else {
            lemma_join_push(words(p), seq![c]);
            if words(p).len() == 0 {
                assert(Seq::<char>::empty().push(c) =~= seq![c]);
                Seq::<char>::empty().lemma_filter_push(c, f);
            } else {
                let a = flattened(p);
                assert(a + seq![' '] + seq![c] =~= a.push(' ').push(c));
                a.lemma_filter_push(' ', f);
                a.push(' ').lemma_filter_push(c, f);
            }
        }
    }
}

/// A text is blank exactly when it has no words.
pub proof fn lemma_blank_means_no_words(s: Seq<char>)
    ensures
        is_blank_text(s) <==> words(s).len() == 0,
    decreases s.len(),
{
    if s.len() > 0 {
        let p = s.drop_last();
        lemma_blank_means_no_words(p);
        lemma_words_shape(s);
        lemma_words_shape(p);
        if is_blank_text(s) {
            assert forall|i: int| 0 <= i < p.len() implies is_space(#[trigger] p[i]) by {
                assert(p[i] == s[i]);
            }
            assert(is_space(s[s.len() - 1]));
        } else {
            let i = choose|i: int| 0 <= i < s.len() && !is_space(#[trigger] s[i]);
            if i < s.len() - 1 {
                assert(p[i] == s[i]);
                assert(!is_blank_text(p));
            } else {
                assert(s.last() == s[i]);
            }
        }
    }
}

/// The preview is as long as the flattened text, up to `PREVIEW_MAX`; it
/// begins with the flattened text, and a text that had to be cut ends in the
/// ellipsis right after its first `PREVIEW_MAX - 1` characters.
pub proof fn lemma_preview_is_a_cut_of_the_flattened_text(s: Seq<char>)
    ensures
        preview_of(s).len() == if flattened(s).len() <= PREVIEW_MAX {
            flattened(s).len()
        } else {
            PREVIEW_MAX as nat
        },
        forall|i: int|
            0 <= i < preview_of(s).len() && (flattened(s).len() <= PREVIEW_MAX || i
                < PREVIEW_MAX - 1) ==> #[trigger] preview_of(s)[i] == flattened(s)[i],
        flattened(s).len() > PREVIEW_MAX ==> preview_of(s)[PREVIEW_MAX - 1] == ELLIPSIS,
{
}

} // verus!
