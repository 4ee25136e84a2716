use vstd::prelude::*;

verus! {

/// Unicode `White_Space`: the characters for which `char::is_whitespace` holds,
/// and on which `str::trim` and `str::split_whitespace` cut.
pub open spec fn is_space(c: char) -> bool {
    let u = c as u32;
    ||| 0x09 <= u <= 0x0d
    ||| u == 0x20
    ||| u == 0x85
    ||| u == 0xa0
    ||| u == 0x1680
    ||| 0x2000 <= u <= 0x200a
    ||| u == 0x2028
    ||| u == 0x2029
    ||| u == 0x202f
    ||| u == 0x205f
    ||| u == 0x3000
}

/// ASCII whitespace: the characters for which `char::is_ascii_whitespace`
/// holds, and on which `str::split_ascii_whitespace` cuts
/// (space, tab, line feed, form feed, carriage return).
pub open spec fn is_ascii_space(c: char) -> bool {
    let u = c as u32;
    u == 0x20 || u == 0x09 || u == 0x0a || u == 0x0c || u == 0x0d
}

/// The separator class a split uses.
pub open spec fn is_sep(c: char, ascii: bool) -> bool {
    if ascii {
        is_ascii_space(c)
    } else {
        is_space(c)
    }
}

/// The maximal runs of non-separator characters of `s`, in order: what
/// `split_ascii_whitespace` (`ascii`) or `split_whitespace` (otherwise) yields.
/// Read left to right: a separator ends the current word, a character that
/// follows a non-separator extends it, any other character starts a new one.
pub open spec fn words(s: Seq<char>, ascii: bool) -> Seq<Seq<char>>
    decreases s.len(),
{
    if s.len() == 0 {
        seq![]
    } else {
        let prev = words(s.drop_last(), ascii);
        let c = s.last();
        if is_sep(c, ascii) {
            prev
        } else if s.len() > 1 && !is_sep(s[s.len() - 2], ascii) {
            prev.update(prev.len() - 1, prev.last().push(c))
        } else {
            prev.push(seq![c])
        }
    }
}

/// The first word of `s`, if it has one.
pub open spec fn first_word(s: Seq<char>) -> Option<Seq<char>> {
    let w = words(s, false);
    if w.len() > 0 {
        Some(w[0])
    } else {
        None
    }
}

/// `s` without its leading whitespace.
pub open spec fn trim_start(s: Seq<char>) -> Seq<char>
    decreases s.len(),
{
    if s.len() > 0 && is_space(s[0]) {
        trim_start(s.drop_first())
    } else {
        s
    }
}

/// `s` without its trailing whitespace.
pub open spec fn trim_end(s: Seq<char>) -> Seq<char>
    decreases s.len(),
{
    if s.len() > 0 && is_space(s.last()) {
        trim_end(s.drop_last())
    } else {
        s
    }
}

/// `s` without leading and trailing whitespace, as `str::trim` gives it.
pub open spec fn trim(s: Seq<char>) -> Seq<char> {
    trim_end(trim_start(s))
}

/// `s` with every double quote removed, as `replace("\"", "")` gives it.
pub open spec fn strip_quotes(s: Seq<char>) -> Seq<char> {
    s.filter(|c: char| c != '"')
}

/// The views of a vector of strings.
pub open spec fn views(v: Seq<String>) -> Seq<Seq<char>> {
    v.map_values(|w: String| w@)
}

/// The characters of `s`, in order.
pub fn chars_of(s: &str) -> (v: Vec<char>)
    ensures
        v@ == s@,
{
    broadcast use vstd::string::group_string_axioms;

    let mut v: Vec<char> = Vec::new();
    for c in it: s.chars()
        invariant
            v@ == it.seq().take(it.index() as int),
    {
        v.push(c);
    }
    v
}

/// Whether `c` is Unicode whitespace.
pub fn is_space_char(c: char) -> (b: bool)
    ensures
        b == is_space(c),
{
    let u = c as u32;
    (0x09 <= u && u <= 0x0d) || u == 0x20 || u == 0x85 || u == 0xa0 || u == 0x1680 || (0x2000
        <= u && u <= 0x200a) || u == 0x2028 || u == 0x2029 || u == 0x202f || u == 0x205f || u
        == 0x3000
}

/// Whether `c` is ASCII whitespace.
pub fn is_ascii_space_char(c: char) -> (b: bool)
    ensures
        b == is_ascii_space(c),
{
    let u = c as u32;
    u == 0x20 || u == 0x09 || u == 0x0a || u == 0x0c || u == 0x0d
}

fn is_sep_char(c: char, ascii: bool) -> (b: bool)
    ensures
        b == is_sep(c, ascii),
{
    if ascii {
        is_ascii_space_char(c)
    } else {
        is_space_char(c)
    }
}

/// The words of `s`: cut at Unicode whitespace, or at ASCII whitespace when
/// `ascii` holds, with empty pieces left out.
pub fn split_words(s: &str, ascii: bool) -> (r: Vec<String>)
    ensures
        views(r@) == words(s@, ascii),
{
    let cs = chars_of(s);
    let n = cs.len();
    let mut out: Vec<String> = Vec::new();
    let mut start: usize = 0;
    let mut i: usize = 0;
    while i < n
        invariant
            n == cs@.len(),
            cs@ == s@,
            i <= n,
            start <= i,
            i > 0 && !is_sep(s@[i - 1], ascii) ==> {
                &&& words(s@.take(i as int), ascii) == views(out@).push(
                    s@.subrange(start as int, i as int),
                )
                &&& start < i
            },
            !(i > 0 && !is_sep(s@[i - 1], ascii)) ==> words(s@.take(i as int), ascii) == views(
                out@,
            ),
        decreases n - i,
    {
        let c = cs[i];
        let ghost pre = s@.take(i as int);
        let ghost cur = s@.take(i + 1);
        assert(cur.drop_last() =~= pre);
        assert(cur.last() == c);
        let in_word = i > 0 && !is_sep_char(cs[i - 1], ascii);
        if is_sep_char(c, ascii) {
            if in_word {
                let w = String::from_str(s.substring_char(start, i));
                let ghost old_out = out@;
                out.push(w);
                assert(views(out@) =~= views(old_out).push(w@));
            }
        } else if in_word {
            let ghost before = views(out@).push(s@.subrange(start as int, i as int));
            assert(s@.subrange(start as int, i + 1) =~= s@.subrange(start as int, i as int).push(
                c,
            ));
            assert(before.update(before.len() - 1, before.last().push(c)) =~= views(out@).push(
                s@.subrange(start as int, i + 1),
            ));
        } else {
            start = i;
            assert(s@.subrange(i as int, i + 1) =~= seq![c]);
        }
        i = i + 1;
    }
    assert(s@.take(n as int) =~= s@);
    if n > 0 && !is_sep_char(cs[n - 1], ascii) {
        let w = String::from_str(s.substring_char(start, n));
        let ghost old_out = out@;
        out.push(w);
        assert(views(out@) =~= views(old_out).push(w@));
    }
    out
}

/// The first word of `s`, as `s.split_whitespace().next()` gives it.
pub fn first_word_of(s: &str) -> (r: Option<String>)
    ensures
        r matches Some(w) ==> first_word(s@) == Some(w@),
        r is None ==> first_word(s@) is None,
{
    let mut ws = split_words(s, false);
    if ws.len() > 0 {
        assert(views(ws@)[0] == ws@[0]@);
        Some(ws.swap_remove(0))
    } else {
        None
    }
}

proof fn lemma_trim_start_step(s: Seq<char>, i: int)
    requires
        0 <= i < s.len(),
        is_space(s[i]),
    ensures
        trim_start(s.skip(i)) == trim_start(s.skip(i + 1)),
{
    assert(s.skip(i).drop_first() =~= s.skip(i + 1));
}

proof fn lemma_trim_end_step(s: Seq<char>, a: int, j: int)
    requires
        0 <= a < j <= s.len(),
        is_space(s[j - 1]),
    ensures
        trim_end(s.subrange(a, j)) == trim_end(s.subrange(a, j - 1)),
{
    assert(s.subrange(a, j).drop_last() =~= s.subrange(a, j - 1));
}

/// `s` without leading and trailing whitespace, as `str::trim` gives it.
pub fn trim_text(s: &str) -> (r: String)
    ensures
        r@ == trim(s@),
{
    let cs = chars_of(s);
    let n = cs.len();
    let mut a: usize = 0;
    assert(s@.skip(0) =~= s@);
    while a < n && is_space_char(cs[a])
        invariant
            n == cs@.len(),
            cs@ == s@,
            a <= n,
            trim_start(s@) == trim_start(s@.skip(a as int)),
        decreases n - a,
    {
        proof {
            lemma_trim_start_step(s@, a as int);
        }
        a = a + 1;
    }
    assert(trim_start(s@) == s@.subrange(a as int, n as int)) by {
        assert(s@.skip(a as int) =~= s@.subrange(a as int, n as int));
    }
    let mut b: usize = n;
    while b > a && is_space_char(cs[b - 1])
        invariant
            n == cs@.len(),
            cs@ == s@,
            a <= b <= n,
            trim_start(s@) == s@.subrange(a as int, n as int),
            trim(s@) == trim_end(s@.subrange(a as int, b as int)),
        decreases b,
    {
        proof {
            lemma_trim_end_step(s@, a as int, b as int);
        }
        b = b - 1;
    }
    String::from_str(s.substring_char(a, b))
}

/// `s` with every double quote removed.
pub fn strip_quotes_of(s: &str) -> (r: String)
    ensures
        r@ == strip_quotes(s@),
{
    broadcast use vstd::seq_lib::group_seq_properties;

    let cs = chars_of(s);
    let n = cs.len();
    let mut out = String::new();
    let mut seg: usize = 0;
    let mut i: usize = 0;
    while i < n
        invariant
            n == cs@.len(),
            cs@ == s@,
            seg <= i <= n,
            out@ + s@.subrange(seg as int, i as int) == strip_quotes(s@.take(i as int)),
            forall|k: int| seg <= k < i ==> s@[k] != '"',
        decreases n - i,
    {
        let c = cs[i];
        proof {
            assert(s@.take(i + 1) =~= s@.take(i as int).push(c));
            s@.take(i as int).lemma_filter_push(c, |c: char| c != '"');
        }
        if c == '"' {
            out.append(s.substring_char(seg, i));
            seg = i + 1;
            assert(s@.subrange(seg as int, i + 1) =~= Seq::<char>::empty());
        } else {
            assert(s@.subrange(seg as int, i + 1) =~= s@.subrange(seg as int, i as int).push(c));
        }
        i = i + 1;
    }
    out.append(s.substring_char(seg, n));
    assert(s@.take(n as int) =~= s@);
    out
}

/// Every word is non-empty and holds no separator; a text that ends in a
/// non-separator has a last word, which ends in that character.
pub proof fn lemma_words_are_clean(s: Seq<char>, ascii: bool)
    ensures
        forall|k: int|
            0 <= k < words(s, ascii).len() ==> #[trigger] words(s, ascii)[k].len() > 0 && forall|
                j: int,
            |
                0 <= j < words(s, ascii)[k].len() ==> !is_sep(
                    #[trigger] words(s, ascii)[k][j],
                    ascii,
                ),
        s.len() > 0 && !is_sep(s.last(), ascii) ==> words(s, ascii).len() > 0,
    decreases s.len(),
{
    if s.len() > 0 {
        lemma_words_are_clean(s.drop_last(), ascii);
        let prev = words(s.drop_last(), ascii);
        let c = s.last();
        if !is_sep(c, ascii) && s.len() > 1 && !is_sep(s[s.len() - 2], ascii) {
            assert(s.drop_last().last() == s[s.len() - 2]);
            let w = words(s, ascii);
            assert forall|k: int| 0 <= k < w.len() implies #[trigger] w[k].len() > 0 && forall|
                j: int,
            |
                0 <= j < w[k].len() ==> !is_sep(#[trigger] w[k][j], ascii) by {
                if k == w.len() - 1 {
                    assert(w[k] == prev.last().push(c));
                    assert forall|j: int| 0 <= j < w[k].len() implies !is_sep(
                        #[trigger] w[k][j],
                        ascii,
                    ) by {
                        if j < w[k].len() - 1 {
                            assert(w[k][j] == prev[k][j]);
                        }
                    }
                }
            }
        }
    }
}

/// Splitting keeps exactly the characters that are not separators, in
/// order: the words, put together, are the text without its separators.
pub proof fn lemma_words_keep_text(s: Seq<char>, ascii: bool)
    ensures
        words(s, ascii).flatten() == s.filter(|c: char| !is_sep(c, ascii)),
    decreases s.len(),
{
    let pred = |c: char| !is_sep(c, ascii);
    words(s, ascii).lemma_flatten_and_flatten_alt_are_equivalent();
    if s.len() == 0 {
        reveal(Seq::filter);
        assert(s.filter(pred) =~= Seq::<char>::empty());
    } else {
        lemma_words_keep_text(s.drop_last(), ascii);
        lemma_words_are_clean(s.drop_last(), ascii);
        let prev = words(s.drop_last(), ascii);
        prev.lemma_flatten_and_flatten_alt_are_equivalent();
        let c = s.last();
        assert(s =~= s.drop_last().push(c));
        s.drop_last().lemma_filter_push(c, pred);
        let w = words(s, ascii);
        if is_sep(c, ascii) {
        } else if s.len() > 1 && !is_sep(s[s.len() - 2], ascii) {
            assert(s.drop_last().last() == s[s.len() - 2]);
            assert(w.drop_last() =~= prev.drop_last());
            assert(prev.flatten_alt() == prev.drop_last().flatten_alt() + prev.last());
            assert(w.flatten_alt() == w.drop_last().flatten_alt() + w.last());
            assert(w.flatten_alt() =~= prev.flatten_alt().push(c));
        } else {
            assert(w.drop_last() =~= prev);
            assert(w.flatten_alt() =~= prev.flatten_alt().push(c));
        }
    }
}

/// A text has no word exactly when all its characters are separators.
pub proof fn lemma_no_words_iff_blank(s: Seq<char>, ascii: bool)
    ensures
        words(s, ascii).len() == 0 <==> forall|i: int| 0 <= i < s.len() ==> is_sep(s[i], ascii),
    decreases s.len(),
{
    if s.len() > 0 {
        lemma_no_words_iff_blank(s.drop_last(), ascii);
        lemma_words_are_clean(s.drop_last(), ascii);
        if forall|i: int| 0 <= i < s.len() ==> is_sep(s[i], ascii) {
            assert forall|i: int| 0 <= i < s.drop_last().len() implies is_sep(
                s.drop_last()[i],
                ascii,
            ) by {
                assert(s.drop_last()[i] == s[i]);
            }
        }
        if words(s, ascii).len() == 0 {
            assert(is_sep(s.last(), ascii));
            assert forall|i: int| 0 <= i < s.len() implies is_sep(s[i], ascii) by {
                if i < s.len() - 1 {
                    assert(s.drop_last()[i] == s[i]);
                }
            }
        }
    }
}

/// No double quote is left after stripping.
pub proof fn lemma_stripped_has_no_quote(s: Seq<char>)
    ensures
        forall|i: int| 0 <= i < strip_quotes(s).len() ==> strip_quotes(s)[i] != '"',
{
    let pred = |c: char| c != '"';
    assert forall|i: int| 0 <= i < strip_quotes(s).len() implies strip_quotes(s)[i] != '"' by {
        s.lemma_filter_pred(pred, i);
    }
}

/// Stripping leaves a text without double quotes as it is; in particular,
/// stripping twice is stripping once.
pub proof fn lemma_strip_quote_free(s: Seq<char>)
    requires
        forall|i: int| 0 <= i < s.len() ==> s[i] != '"',
    ensures
        strip_quotes(s) == s,
    decreases s.len(),
{
    reveal(Seq::filter);
    if s.len() > 0 {
        assert forall|i: int| 0 <= i < s.drop_last().len() implies s.drop_last()[i] != '"' by {
            assert(s.drop_last()[i] == s[i]);
        }
        lemma_strip_quote_free(s.drop_last());
        assert(strip_quotes(s) =~= strip_quotes(s.drop_last()).push(s.last()));
    }
}

/// Stripping twice is stripping once.
pub proof fn lemma_strip_idempotent(s: Seq<char>)
    ensures
        strip_quotes(strip_quotes(s)) == strip_quotes(s),
{
    lemma_stripped_has_no_quote(s);
    lemma_strip_quote_free(strip_quotes(s));
}

proof fn lemma_trim_start_shape(s: Seq<char>)
    ensures
        trim_start(s).len() > 0 ==> !is_space(trim_start(s)[0]),
        trim_start(s).len() > 0 ==> trim_start(s).last() == s.last(),
    decreases s.len(),
{
    if s.len() > 0 && is_space(s[0]) {
        lemma_trim_start_shape(s.drop_first());
    }
}

proof fn lemma_trim_end_shape(s: Seq<char>)
    ensures
        trim_end(s) == s.take(trim_end(s).len() as int),
        trim_end(s).len() <= s.len(),
        trim_end(s).len() > 0 ==> !is_space(trim_end(s).last()),
    decreases s.len(),
{
    if s.len() > 0 && is_space(s.last()) {
        lemma_trim_end_shape(s.drop_last());
        assert(s.drop_last().take(trim_end(s).len() as int) =~= s.take(trim_end(s).len() as int));
    } else {
        assert(s.take(s.len() as int) =~= s);
    }
}

/// A trimmed text neither starts nor ends with whitespace.
pub proof fn lemma_trim_edges(s: Seq<char>)
    ensures
        trim(s).len() > 0 ==> !is_space(trim(s)[0]) && !is_space(trim(s).last()),
{
    lemma_trim_start_shape(s);
    lemma_trim_end_shape(trim_start(s));
    if trim(s).len() > 0 {
        assert(trim(s)[0] == trim_start(s)[0]);
    }
}

/// Trimming twice is trimming once.
pub proof fn lemma_trim_idempotent(s: Seq<char>)
    ensures
        trim(trim(s)) == trim(s),
{
    lemma_trim_edges(s);
    let t = trim(s);
    if t.len() == 0 {
        assert(trim_start(t) == t);
    } else {
        assert(trim_start(t) == t);
        assert(trim_end(t) == t);
    }
}

/// A run of non-separators is a single word.
pub proof fn lemma_words_of_word(w: Seq<char>, ascii: bool)
    requires
        w.len() > 0,
        forall|i: int| 0 <= i < w.len() ==> !is_sep(#[trigger] w[i], ascii),
    ensures
        words(w, ascii) == seq![w],
    decreases w.len(),
{
    if w.len() == 1 {
        assert(w.drop_last() =~= Seq::<char>::empty());
        assert(words(w.drop_last(), ascii) =~= Seq::<Seq<char>>::empty());
        assert(seq![w.last()] =~= w);
    } else {
        assert forall|i: int| 0 <= i < w.drop_last().len() implies !is_sep(
            #[trigger] w.drop_last()[i],
            ascii,
        ) by {
            assert(w.drop_last()[i] == w[i]);
        }
        lemma_words_of_word(w.drop_last(), ascii);
        assert(!is_sep(w[w.len() - 2], ascii));
        assert(w.drop_last().push(w.last()) =~= w);
        assert(words(w, ascii) =~= seq![w]);
    }
}

/// Splitting at a separator: the words of `a`, a separator `c`, then `b`
/// are the words of `a` followed by the words of `b`.
pub proof fn lemma_words_split_at(a: Seq<char>, c: char, b: Seq<char>, ascii: bool)
    requires
        is_sep(c, ascii),
    ensures
        words(a.push(c) + b, ascii) == words(a, ascii) + words(b, ascii),
    decreases b.len(),
{
    let s = a.push(c) + b;
    if b.len() == 0 {
        assert(s =~= a.push(c));
        assert(a.push(c).drop_last() =~= a);
        assert(words(b, ascii) =~= Seq::<Seq<char>>::empty());
        assert(words(a, ascii) + words(b, ascii) =~= words(a, ascii));
    } else {
        assert(s.drop_last() =~= a.push(c) + b.drop_last());
        lemma_words_split_at(a, c, b.drop_last(), ascii);
        let wa = words(a, ascii);
        let wb0 = words(b.drop_last(), ascii);
        let x = b.last();
        assert(s.last() == x);
        if is_sep(x, ascii) {
        } else if b.len() > 1 && !is_sep(b[b.len() - 2], ascii) {
            assert(s[s.len() - 2] == b[b.len() - 2]);
            assert(b.drop_last().last() == b[b.len() - 2]);
            lemma_words_are_clean(b.drop_last(), ascii);
            assert(wb0.len() > 0);
            assert((wa + wb0).update(
                (wa + wb0).len() - 1,
                (wa + wb0).last().push(x),
            ) =~= wa + wb0.update(wb0.len() - 1, wb0.last().push(x)));
        } else {
            if b.len() > 1 {
                assert(s[s.len() - 2] == b[b.len() - 2]);
            } else {
                assert(s[s.len() - 2] == c);
            }
            assert((wa + wb0).push(seq![x]) =~= wa + wb0.push(seq![x]));
        }
    }
}

} // verus!
