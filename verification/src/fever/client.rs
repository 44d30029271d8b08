//! The Fever API client: request shapes, reply checks, pagination and the
//! plain-text rendering of collected articles.
use vstd::prelude::*;
use crate::text::{
    chars_of, decimal, decimal_parses_back, decimal_string, digit_char, free_of, is_space, join, join_strings,
    lemma_split_append, lemma_split_single, lemma_trim_bounds, lemma_trim_free_of, parse_u64, parse_u64_chars,
    push_char, push_str, split_on, string_of, trim, trim_chars, trim_end, trim_range, trim_start,
};

verus! {

// ── Plain text from HTML ─────────────────────────────────────────────────────

/// `s` with every `<...>` tag removed; `in_tag` tells whether a tag is open at the start.
/// A `<` opens a tag and a `>` closes one; characters inside a tag are dropped.
pub open spec fn strip_tags(s: Seq<char>, in_tag: bool) -> Seq<char>
    decreases s.len(),
{
    if s.len() == 0 {
        seq![]
    } else if s[0] == '<' {
        strip_tags(s.drop_first(), true)
    } else if s[0] == '>' {
        strip_tags(s.drop_first(), false)
    } else if !in_tag {
        seq![s[0]] + strip_tags(s.drop_first(), in_tag)
    } else {
        strip_tags(s.drop_first(), in_tag)
    }
}

/// The lines of `s` as `str::lines` yields them (up to a trailing `'\r'`, which
/// trimming removes anyway): the pieces between newlines, without a final empty piece.
pub open spec fn lines(s: Seq<char>) -> Seq<Seq<char>> {
    let p = split_on(s, '\n');
    if p.last().len() == 0 {
        p.drop_last()
    } else {
        p
    }
}

/// The trimmed lines of `ls`, each followed by `'\n'`, where a run of blank lines
/// becomes a single empty line; the second component counts the blank lines at the end.
pub open spec fn collapse_blank_lines(ls: Seq<Seq<char>>) -> (Seq<char>, nat)
    decreases ls.len(),
{
    if ls.len() == 0 {
        (seq![], 0)
    } else {
        let (out, blank) = collapse_blank_lines(ls.drop_last());
        let t = trim(ls.last());
        if t.len() == 0 {
            (if blank == 0 { out.push('\n') } else { out }, blank + 1)
        } else {
            (out + t.push('\n'), 0)
        }
    }
}

/// What `strip_html` gives for `html`.
pub open spec fn plain_text(html: Seq<char>) -> Seq<char> {
    trim(collapse_blank_lines(lines(strip_tags(html, false))).0)
}

proof fn lemma_take_step(t: Seq<char>, j: int)
    requires
        0 <= j < t.len(),
    ensures
        t.take(j + 1).drop_last() == t.take(j),
        t.take(j + 1).last() == t[j],
{
    assert(t.take(j + 1).drop_last() =~= t.take(j));
}

/// Strips HTML tags from `html`, trims every line, collapses runs of blank lines
/// into one and trims the whole.
pub fn strip_html(html: &str) -> (out: String)
    ensures
        out@ == plain_text(html@),
{
    let cs = chars_of(html);
    // Drop the tags.
    let mut t: Vec<char> = Vec::new();
    let mut in_tag = false;
    let mut i: usize = 0;
    assert(cs@.skip(0) =~= cs@);
    assert(t@ + strip_tags(cs@, false) =~= strip_tags(cs@, false));
    while i < cs.len()
        invariant
            i <= cs@.len(),
            cs@ == html@,
            t@.len() <= i,
            strip_tags(cs@, false) == t@ + strip_tags(cs@.skip(i as int), in_tag),
        decreases cs.len() - i,
    {
        let c = cs[i];
        assert(cs@.skip(i as int).drop_first() =~= cs@.skip(i + 1));
        if c == '<' {
            in_tag = true;
        } else if c == '>' {
            in_tag = false;
        } else if !in_tag {
            t.push(c);
            assert(t@ + strip_tags(cs@.skip(i + 1), in_tag) =~= t@.drop_last() + (seq![c]
                + strip_tags(cs@.skip(i + 1), in_tag)));
        }
        i = i + 1;
    }
    assert(cs@.skip(cs@.len() as int) =~= seq![]);
    assert(t@ =~= t@ + seq![]);
    // Trim every line and collapse blank runs.
    let mut out = String::new();
    let mut blank = false;
    let mut start: usize = 0;
    let mut j: usize = 0;
    let ghost mut done: Seq<Seq<char>> = seq![];
    assert(t@.take(0) =~= seq![]);
    assert(t@.subrange(0, 0) =~= seq![]);
    while j < t.len()
        invariant
            start <= j <= t@.len(),
            split_on(t@.take(j as int), '\n') == done.push(t@.subrange(start as int, j as int)),
            collapse_blank_lines(done).0 == out@,
            collapse_blank_lines(done).1 > 0 <==> blank,
        decreases t.len() - j,
    {
        proof {
            lemma_take_step(t@, j as int);
        }
        if t[j] == '\n' {
            let line = trim_range(&t, start, j);
            proof {
                assert(done.push(t@.subrange(start as int, j as int)).drop_last() =~= done);
            }
            if line.len() == 0 {
                if !blank {
                    push_char(&mut out, '\n');
                }
                blank = true;
            } else {
                let ls = string_of(&line);
                push_str(&mut out, ls.as_str());
                push_char(&mut out, '\n');
                blank = false;
            }
            proof {
                let d2 = done.push(t@.subrange(start as int, j as int));
                assert(d2.drop_last() =~= done);
                done = d2;
                assert(t@.subrange(j + 1, j + 1) =~= seq![]);
            }
            start = j + 1;
        } else {
            proof {
                assert(t@.subrange(start as int, j + 1) =~= t@.subrange(start as int, j as int).push(t[j as int]));
                assert(done.push(t@.subrange(start as int, j as int)).update(done.len() as int,
                    t@.subrange(start as int, j as int).push(t[j as int])) =~= done.push(t@.subrange(start as int, j + 1)));
            }
        }
        j = j + 1;
    }
    assert(t@.take(t@.len() as int) =~= t@);
    if start < t.len() {
        let line = trim_range(&t, start, t.len());
        proof {
            assert(done.push(t@.subrange(start as int, t@.len() as int)).drop_last() =~= done);
        }
        if line.len() == 0 {
            if !blank {
                push_char(&mut out, '\n');
            }
        } else {
            let ls = string_of(&line);
            push_str(&mut out, ls.as_str());
            push_char(&mut out, '\n');
        }
    } else {
        assert(done.push(t@.subrange(start as int, t@.len() as int)).drop_last() =~= done);
    }
    let oc = chars_of(out.as_str());
    let trimmed = trim_chars(&oc);
    string_of(&trimmed)
}


/// `<` or `>`.
pub open spec fn is_angle(c: char) -> bool {
    c == '<' || c == '>'
}

proof fn lemma_strip_tags_free(s: Seq<char>, in_tag: bool)
    ensures
        free_of(strip_tags(s, in_tag), |c: char| is_angle(c)),
    decreases s.len(),
{
    if s.len() > 0 {
        lemma_strip_tags_free(s.drop_first(), true);
        lemma_strip_tags_free(s.drop_first(), false);
        lemma_strip_tags_free(s.drop_first(), in_tag);
        let r = strip_tags(s.drop_first(), in_tag);
        if s[0] != '<' && s[0] != '>' && !in_tag {
            assert forall|i: int| 0 <= i < (seq![s[0]] + r).len() implies !is_angle(#[trigger] (seq![s[0]] + r)[i]) by {
                if i > 0 {
                    assert((seq![s[0]] + r)[i] == r[i - 1]);
                }
            }
        }
    }
}

proof fn lemma_split_free(s: Seq<char>, sep: char, bad: spec_fn(char) -> bool)
    requires
        free_of(s, bad),
    ensures
        forall|i: int| 0 <= i < split_on(s, sep).len() ==> free_of(#[trigger] split_on(s, sep)[i], bad),
        split_on(s, sep).len() >= 1,
    decreases s.len(),
{
    if s.len() > 0 {
        assert(free_of(s.drop_last(), bad)) by {
            assert forall|i: int| 0 <= i < s.drop_last().len() implies !bad(#[trigger] s.drop_last()[i]) by {
                assert(s.drop_last()[i] == s[i]);
            }
        }
        lemma_split_free(s.drop_last(), sep, bad);
        let p = split_on(s.drop_last(), sep);
        if s.last() != sep {
            let q = p.last().push(s.last());
            assert(free_of(q, bad)) by {
                assert(free_of(p[p.len() - 1], bad));
                assert forall|i: int| 0 <= i < q.len() implies !bad(#[trigger] q[i]) by {
                    if i < q.len() - 1 {
                        assert(q[i] == p[p.len() - 1][i]);
                    } else {
                        assert(q[i] == s[s.len() - 1]);
                    }
                }
            }
            assert forall|i: int| 0 <= i < split_on(s, sep).len() implies free_of(#[trigger] split_on(s, sep)[i], bad) by {
                if i < p.len() - 1 {
                    assert(split_on(s, sep)[i] == p[i]);
                }
            }
        } else {
            assert forall|i: int| 0 <= i < split_on(s, sep).len() implies free_of(#[trigger] split_on(s, sep)[i], bad) by {
                if i < p.len() {
                    assert(split_on(s, sep)[i] == p[i]);
                } else {
                    assert(split_on(s, sep)[i] =~= Seq::<char>::empty());
                }
            }
        }
    }
}

proof fn lemma_collapse_free(ls: Seq<Seq<char>>, bad: spec_fn(char) -> bool)
    requires
        forall|i: int| 0 <= i < ls.len() ==> free_of(#[trigger] ls[i], bad),
        !bad('\n'),
    ensures
        free_of(collapse_blank_lines(ls).0, bad),
    decreases ls.len(),
{
    if ls.len() > 0 {
        assert forall|i: int| 0 <= i < ls.drop_last().len() implies free_of(#[trigger] ls.drop_last()[i], bad) by {
            assert(ls.drop_last()[i] == ls[i]);
        }
        lemma_collapse_free(ls.drop_last(), bad);
        let (out, blank) = collapse_blank_lines(ls.drop_last());
        assert(free_of(ls[ls.len() - 1], bad));
        lemma_trim_free_of(ls.last(), bad);
        let t = trim(ls.last());
        let r = collapse_blank_lines(ls).0;
        assert forall|i: int| 0 <= i < r.len() implies !bad(#[trigger] r[i]) by {
            if i < out.len() {
                assert(r[i] == out[i]);
            } else if t.len() > 0 && i < out.len() + t.len() {
                assert(r[i] == t[i - out.len()]);
            }
        }
    }
}

/// What `strip_html` returns is plain text: no `<` or `>` is left in it, and it
/// neither starts nor ends with white space.
pub proof fn stripped_text_is_plain(html: Seq<char>)
    ensures
        free_of(plain_text(html), |c: char| is_angle(c)),
        plain_text(html).len() > 0 ==> !is_space(plain_text(html)[0]) && !is_space(plain_text(html).last()),
{
    let bad = |c: char| is_angle(c);
    let t = strip_tags(html, false);
    lemma_strip_tags_free(html, false);
    lemma_split_free(t, '\n', bad);
    let p = split_on(t, '\n');
    assert forall|i: int| 0 <= i < lines(t).len() implies free_of(#[trigger] lines(t)[i], bad) by {
        assert(lines(t)[i] == p[i]);
    }
    lemma_collapse_free(lines(t), bad);
    lemma_trim_free_of(collapse_blank_lines(lines(t)).0, bad);
    lemma_trim_bounds(collapse_blank_lines(lines(t)).0);
}

// ── Plain text is stable ─────────────────────────────────────────────────────

/// `s` is all white space.
pub open spec fn all_space(s: Seq<char>) -> bool {
    forall|i: int| 0 <= i < s.len() ==> is_space(#[trigger] s[i])
}

/// A line as the collapsed text keeps it: trimmed, and without a newline.
pub open spec fn clean_line(l: Seq<char>) -> bool {
    &&& trim(l) == l
    &&& free_of(l, |c: char| c == '\n')
}

/// Lines as the collapsed text keeps them: each clean, and never two blank
/// lines in a row.
pub open spec fn tidy(ls: Seq<Seq<char>>) -> bool {
    &&& forall|i: int| 0 <= i < ls.len() ==> clean_line(#[trigger] ls[i])
    &&& forall|i: int| 0 <= i < ls.len() - 1 ==> (#[trigger] ls[i]).len() > 0 || ls[i + 1].len() > 0
}

/// The lines `collapse_blank_lines` keeps of `ls` (each trimmed, one empty line for
/// each run of blank lines), and the number of blank lines at the end.
pub open spec fn kept_lines(ls: Seq<Seq<char>>) -> (Seq<Seq<char>>, nat)
    decreases ls.len(),
{
    if ls.len() == 0 {
        (seq![], 0)
    } else {
        let (ks, blank) = kept_lines(ls.drop_last());
        let t = trim(ls.last());
        if t.len() == 0 {
            (if blank == 0 { ks.push(seq![]) } else { ks }, blank + 1)
        } else {
            (ks.push(t), 0)
        }
    }
}

/// Each line of `ls` followed by a newline.
pub open spec fn terminated(ls: Seq<Seq<char>>) -> Seq<char>
    decreases ls.len(),
{
    if ls.len() == 0 {
        seq![]
    } else {
        terminated(ls.drop_last()) + ls.last().push('\n')
    }
}

/// `ls` without a blank first line and without a blank last line.
pub open spec fn core_lines(ls: Seq<Seq<char>>) -> Seq<Seq<char>> {
    let k = if ls.len() > 0 && ls[0].len() == 0 { ls.drop_first() } else { ls };
    if k.len() > 0 && k.last().len() == 0 { k.drop_last() } else { k }
}

proof fn lemma_trim_idempotent(s: Seq<char>)
    ensures
        trim(trim(s)) == trim(s),
{
    lemma_trim_bounds(s);
    let t = trim(s);
    if t.len() > 0 {
        assert(trim_start(t) == t);
        assert(trim_end(t) == t);
    } else {
        assert(trim_start(t) == t);
    }
}

proof fn lemma_trim_start_spaces(p: Seq<char>, j: Seq<char>)
    requires
        all_space(p),
        j.len() == 0 || !is_space(j[0]),
    ensures
        trim_start(p + j) == j,
    decreases p.len(),
{
    if p.len() > 0 {
        assert((p + j)[0] == p[0]);
        assert((p + j).drop_first() =~= p.drop_first() + j);
        assert(all_space(p.drop_first())) by {
            assert forall|i: int| 0 <= i < p.drop_first().len() implies is_space(#[trigger] p.drop_first()[i]) by {
                assert(p.drop_first()[i] == p[i + 1]);
            }
        }
        lemma_trim_start_spaces(p.drop_first(), j);
    } else {
        assert(p + j =~= j);
    }
}

proof fn lemma_trim_end_spaces(j: Seq<char>, s: Seq<char>)
    requires
        all_space(s),
        j.len() == 0 || !is_space(j.last()),
    ensures
        trim_end(j + s) == j,
    decreases s.len(),
{
    if s.len() > 0 {
        assert((j + s).last() == s.last());
        assert((j + s).drop_last() =~= j + s.drop_last());
        assert(all_space(s.drop_last())) by {
            assert forall|i: int| 0 <= i < s.drop_last().len() implies is_space(#[trigger] s.drop_last()[i]) by {
                assert(s.drop_last()[i] == s[i]);
            }
        }
        lemma_trim_end_spaces(j, s.drop_last());
    } else {
        assert(j + s =~= j);
    }
}

/// Trimming white space around a text that neither starts nor ends with white
/// space gives the text.
proof fn lemma_trim_around(p: Seq<char>, j: Seq<char>, s: Seq<char>)
    requires
        all_space(p),
        all_space(s),
        j.len() == 0 || (!is_space(j[0]) && !is_space(j.last())),
    ensures
        trim(p + j + s) == j,
{
    assert(p + j + s =~= p + (j + s));
    if j.len() > 0 {
        assert((j + s)[0] == j[0]);
        lemma_trim_start_spaces(p, j + s);
    } else {
        assert(j + s =~= s);
        assert(s.len() == 0 || is_space(s[0]));
        lemma_trim_start_spaces(p + s, Seq::<char>::empty());
        assert(p + s + Seq::<char>::empty() =~= p + s);
        assert(all_space(p + s)) by {
            assert forall|i: int| 0 <= i < (p + s).len() implies is_space(#[trigger] (p + s)[i]) by {
                if i < p.len() {
                    assert((p + s)[i] == p[i]);
                } else {
                    assert((p + s)[i] == s[i - p.len()]);
                }
            }
        }
        lemma_trim_start_spaces(p + s, Seq::<char>::empty());
        assert(p + (j + s) =~= p + s + Seq::<char>::empty());
        assert(trim_end(Seq::<char>::empty()) == Seq::<char>::empty());
        return;
    }
    lemma_trim_end_spaces(j, s);
}

proof fn lemma_join_append(a: Seq<Seq<char>>, b: Seq<Seq<char>>, sep: Seq<char>)
    requires
        a.len() > 0,
        b.len() > 0,
    ensures
        join(a + b, sep) == join(a, sep) + sep + join(b, sep),
    decreases b.len(),
{
    if b.len() == 1 {
        assert((a + b).drop_last() =~= a);
        assert((a + b).last() == b[0]);
    } else {
        lemma_join_append(a, b.drop_last(), sep);
        assert((a + b).drop_last() =~= a + b.drop_last());
        assert((a + b).last() == b.last());
    }
}

proof fn lemma_join_ends(m: Seq<Seq<char>>, sep: Seq<char>)
    requires
        m.len() > 0,
        m[0].len() > 0,
        m.last().len() > 0,
    ensures
        join(m, sep).len() > 0,
        join(m, sep)[0] == m[0][0],
        join(m, sep).last() == m.last().last(),
    decreases m.len(),
{
    if m.len() > 1 {
        let d = m.drop_last();
        assert(d[0] == m[0]);
        if d.last().len() > 0 {
            lemma_join_ends(d, sep);
        } else {
            lemma_join_first(d, sep);
        }
        assert(join(m, sep) == join(d, sep) + sep + m.last());
    }
}

proof fn lemma_join_first(m: Seq<Seq<char>>, sep: Seq<char>)
    requires
        m.len() > 0,
        m[0].len() > 0,
    ensures
        join(m, sep).len() > 0,
        join(m, sep)[0] == m[0][0],
    decreases m.len(),
{
    if m.len() > 1 {
        let d = m.drop_last();
        assert(d[0] == m[0]);
        lemma_join_first(d, sep);
        assert(join(m, sep) == join(d, sep) + sep + m.last());
    }
}

proof fn lemma_terminated_join(ls: Seq<Seq<char>>)
    requires
        ls.len() > 0,
    ensures
        terminated(ls) == join(ls, "\n"@) + "\n"@,
    decreases ls.len(),
{
    reveal_strlit("\n");
    if ls.len() == 1 {
        assert(ls.drop_last() =~= Seq::<Seq<char>>::empty());
        assert(terminated(ls.drop_last()) == Seq::<char>::empty());
        assert(ls.last() == ls[0]);
        assert(terminated(ls) =~= ls[0].push('\n'));
        assert(join(ls, "\n"@) + "\n"@ =~= ls[0].push('\n'));
    } else {
        lemma_terminated_join(ls.drop_last());
        assert(terminated(ls) =~= join(ls, "\n"@) + "\n"@);
    }
}

proof fn lemma_split_pieces_free(s: Seq<char>, sep: char)
    ensures
        forall|i: int| 0 <= i < split_on(s, sep).len() ==> free_of(#[trigger] split_on(s, sep)[i], |c: char| c == sep),
        split_on(s, sep).len() >= 1,
    decreases s.len(),
{
    if s.len() > 0 {
        lemma_split_pieces_free(s.drop_last(), sep);
        let p = split_on(s.drop_last(), sep);
        if s.last() != sep {
            let q = p.last().push(s.last());
            assert(free_of(q, |c: char| c == sep)) by {
                assert(free_of(p[p.len() - 1], |c: char| c == sep));
                assert forall|i: int| 0 <= i < q.len() implies !((|c: char| c == sep)(#[trigger] q[i])) by {
                    if i < q.len() - 1 {
                        assert(q[i] == p[p.len() - 1][i]);
                    }
                }
            }
            assert forall|i: int| 0 <= i < split_on(s, sep).len() implies free_of(#[trigger] split_on(s, sep)[i], |c: char| c == sep) by {
                if i < p.len() - 1 {
                    assert(split_on(s, sep)[i] == p[i]);
                }
            }
        } else {
            assert forall|i: int| 0 <= i < split_on(s, sep).len() implies free_of(#[trigger] split_on(s, sep)[i], |c: char| c == sep) by {
                if i < p.len() {
                    assert(split_on(s, sep)[i] == p[i]);
                } else {
                    assert(split_on(s, sep)[i] =~= Seq::<char>::empty());
                }
            }
        }
    }
}

proof fn lemma_split_join(m: Seq<Seq<char>>)
    requires
        m.len() > 0,
        forall|i: int| 0 <= i < m.len() ==> free_of(#[trigger] m[i], |c: char| c == '\n'),
    ensures
        split_on(join(m, "\n"@), '\n') == m,
    decreases m.len(),
{
    reveal_strlit("\n");
    if m.len() == 1 {
        assert(free_of(m[0], |c: char| c == '\n'));
        lemma_split_single(m[0], '\n');
        assert(seq![m[0]] =~= m);
    } else {
        let d = m.drop_last();
        assert forall|i: int| 0 <= i < d.len() implies free_of(#[trigger] d[i], |c: char| c == '\n') by {
            assert(d[i] == m[i]);
        }
        lemma_split_join(d);
        assert(free_of(m[m.len() - 1], |c: char| c == '\n'));
        assert forall|i: int| 0 <= i < m.last().len() implies (#[trigger] m.last()[i]) != '\n' by {
            assert(!((|c: char| c == '\n')(m.last()[i])));
        }
        lemma_split_append(join(d, "\n"@), '\n', m.last());
        assert(join(m, "\n"@) =~= join(d, "\n"@) + seq!['\n'] + m.last());
        assert(d.push(m.last()) =~= m);
    }
}

proof fn lemma_collapse_kept(ls: Seq<Seq<char>>)
    ensures
        collapse_blank_lines(ls) == (terminated(kept_lines(ls).0), kept_lines(ls).1),
    decreases ls.len(),
{
    if ls.len() > 0 {
        lemma_collapse_kept(ls.drop_last());
        let (ks, blank) = kept_lines(ls.drop_last());
        let t = trim(ls.last());
        if t.len() == 0 {
            if blank == 0 {
                assert(ks.push(seq![]).drop_last() =~= ks);
                assert(terminated(ks.push(seq![])) =~= terminated(ks).push('\n'));
            }
        } else {
            assert(ks.push(t).drop_last() =~= ks);
        }
    }
}

/// The kept lines of newline-free lines are tidy, and blank lines at the end show
/// as a blank last kept line.
proof fn lemma_kept_tidy(ls: Seq<Seq<char>>)
    requires
        forall|i: int| 0 <= i < ls.len() ==> free_of(#[trigger] ls[i], |c: char| c == '\n'),
    ensures
        tidy(kept_lines(ls).0),
        kept_lines(ls).1 > 0 <==> (kept_lines(ls).0.len() > 0 && kept_lines(ls).0.last().len() == 0),
    decreases ls.len(),
{
    if ls.len() > 0 {
        let d = ls.drop_last();
        assert forall|i: int| 0 <= i < d.len() implies free_of(#[trigger] d[i], |c: char| c == '\n') by {
            assert(d[i] == ls[i]);
        }
        lemma_kept_tidy(d);
        let (ks, blank) = kept_lines(d);
        let t = trim(ls.last());
        assert(free_of(ls[ls.len() - 1], |c: char| c == '\n'));
        lemma_trim_free_of(ls.last(), |c: char| c == '\n');
        lemma_trim_idempotent(ls.last());
        assert(clean_line(t));
        let r = kept_lines(ls).0;
        if t.len() == 0 {
            if blank == 0 {
                assert(r == ks.push(t)) by {
                    assert(t =~= Seq::<char>::empty());
                }
                assert forall|i: int| 0 <= i < r.len() implies clean_line(#[trigger] r[i]) by {
                    if i < ks.len() {
                        assert(r[i] == ks[i]);
                    }
                }
                assert forall|i: int| 0 <= i < r.len() - 1 implies (#[trigger] r[i]).len() > 0 || r[i + 1].len() > 0 by {
                    assert(r[i] == ks[i]);
                    if i + 1 < ks.len() {
                        assert(r[i + 1] == ks[i + 1]);
                    } else {
                        assert(ks.last() == ks[i]);
                    }
                }
            }
        } else {
            assert(r == ks.push(t));
            assert forall|i: int| 0 <= i < r.len() implies clean_line(#[trigger] r[i]) by {
                if i < ks.len() {
                    assert(r[i] == ks[i]);
                }
            }
            assert forall|i: int| 0 <= i < r.len() - 1 implies (#[trigger] r[i]).len() > 0 || r[i + 1].len() > 0 by {
                assert(r[i] == ks[i]);
                if i + 1 < ks.len() {
                    assert(r[i + 1] == ks[i + 1]);
                } else {
                    assert(r[i + 1] == t);
                }
            }
        }
    }
}

/// Tidy lines that start with a non-blank line are kept as they are.
proof fn lemma_kept_of_tidy(m: Seq<Seq<char>>)
    requires
        tidy(m),
        m.len() > 0 ==> m[0].len() > 0,
    ensures
        kept_lines(m).0 == m,
        kept_lines(m).1 == (if m.len() > 0 && m.last().len() == 0 { 1nat } else { 0nat }),
    decreases m.len(),
{
    if m.len() > 0 {
        let d = m.drop_last();
        assert(tidy(d)) by {
            assert forall|i: int| 0 <= i < d.len() implies clean_line(#[trigger] d[i]) by {
                assert(d[i] == m[i]);
            }
            assert forall|i: int| 0 <= i < d.len() - 1 implies (#[trigger] d[i]).len() > 0 || d[i + 1].len() > 0 by {
                assert(d[i] == m[i]);
                assert(d[i + 1] == m[i + 1]);
            }
        }
        if d.len() > 0 {
            assert(d[0] == m[0]);
        }
        lemma_kept_of_tidy(d);
        let l = m.last();
        assert(clean_line(m[m.len() - 1]));
        assert(trim(l) == l);
        if l.len() == 0 {
            assert(m.len() >= 2);
            assert(m[m.len() - 2].len() > 0 || m[m.len() - 1].len() > 0);
            assert(d.last() == m[m.len() - 2]);
            assert(l =~= Seq::<char>::empty());
            assert(d.push(l) =~= m);
        } else {
            assert(d.push(l) =~= m);
        }
    }
}

proof fn lemma_clean_line_ends(l: Seq<char>)
    requires
        clean_line(l),
        l.len() > 0,
    ensures
        !is_space(l[0]),
        !is_space(l.last()),
{
    lemma_trim_bounds(l);
}

/// What `strip_html` gives is its tidy core lines joined by newlines.
proof fn lemma_plain_text_shape(html: Seq<char>)
    ensures
        ({
            let m = core_lines(kept_lines(lines(strip_tags(html, false))).0);
            &&& plain_text(html) == join(m, "\n"@)
            &&& tidy(m)
            &&& m.len() > 0 ==> m[0].len() > 0 && m.last().len() > 0
        }),
{
    reveal_strlit("\n");
    let t = strip_tags(html, false);
    let ls = lines(t);
    lemma_split_pieces_free(t, '\n');
    assert forall|i: int| 0 <= i < ls.len() implies free_of(#[trigger] ls[i], |c: char| c == '\n') by {
        assert(ls[i] == split_on(t, '\n')[i]);
    }
    lemma_kept_tidy(ls);
    lemma_collapse_kept(ls);
    let k = kept_lines(ls).0;
    let m = core_lines(k);
    assert(plain_text(html) == trim(terminated(k)));
    if k.len() == 0 {
        assert(m =~= k);
        assert(terminated(k) == Seq::<char>::empty());
        assert(trim_start(Seq::<char>::empty()) == Seq::<char>::empty());
        assert(trim_end(Seq::<char>::empty()) == Seq::<char>::empty());
        return;
    }
    lemma_terminated_join(k);
    let k1 = if k[0].len() == 0 { k.drop_first() } else { k };
    let lo: int = if k[0].len() == 0 { 1 } else { 0 };
    let hi: int = if k1.len() > 0 && k1.last().len() == 0 { k.len() - 1 } else { k.len() as int };
    assert(k1 =~= k.subrange(lo, k.len() as int));
    assert(m =~= k.subrange(lo, hi));
    assert(tidy(m)) by {
        assert forall|i: int| 0 <= i < m.len() implies clean_line(#[trigger] m[i]) by {
            assert(m[i] == k[i + lo]);
        }
        assert forall|i: int| 0 <= i < m.len() - 1 implies (#[trigger] m[i]).len() > 0 || m[i + 1].len() > 0 by {
            assert(m[i] == k[i + lo]);
            assert(m[i + 1] == k[i + 1 + lo]);
        }
    }
    let nl: Seq<char> = seq!['\n'];
    assert(is_space('\n'));
    assert(all_space(nl));
    assert(all_space(Seq::<char>::empty()));
    if m.len() == 0 {
        // Only a single blank line can leave nothing.
        assert(k.len() == 1 && k[0].len() == 0) by {
            if k[0].len() == 0 {
                if k1.len() > 0 {
                    assert(k1.len() == 1);
                    assert(k[1] == k1[0]);
                    assert(k[0].len() > 0 || k[1].len() > 0);
                }
            } else {
                assert(k1.len() == 1);
            }
        }
        assert(k[0] =~= Seq::<char>::empty());
        assert(k =~= seq![Seq::<char>::empty()]);
        assert(join(k, "\n"@) =~= Seq::<char>::empty());
        assert(terminated(k) =~= nl + Seq::<char>::empty() + Seq::<char>::empty());
        lemma_trim_around(nl, Seq::<char>::empty(), Seq::<char>::empty());
        assert(join(m, "\n"@) =~= Seq::<char>::empty());
        return;
    }
    // The core's first and last lines are not blank.
    assert(m[0].len() > 0) by {
        assert(m[0] == k[lo]);
        if lo == 1 {
            assert(k[0].len() > 0 || k[1].len() > 0);
        }
    }
    assert(m.last().len() > 0) by {
        assert(m.last() == k[hi - 1]);
        if hi == k.len() - 1 {
            assert(k.last() == k[k.len() - 1]);
            assert(k1.last() == k[k.len() - 1]);
            assert(k[k.len() - 2].len() > 0 || k[k.len() - 1].len() > 0);
        } else {
            assert(k1.last() == k[k.len() - 1]);
        }
    }
    // join(k) is join(m) with a newline in front for a blank first line and one
    // behind for a blank last line.
    let p: Seq<char> = if lo == 1 { nl } else { Seq::<char>::empty() };
    let sfx: Seq<char> = if hi == k.len() - 1 { nl } else { Seq::<char>::empty() };
    assert(join(k1, "\n"@) == join(m, "\n"@) + sfx) by {
        if hi == k.len() - 1 {
            assert(k1.last() =~= Seq::<char>::empty());
            assert(k1 =~= m + seq![Seq::<char>::empty()]);
            lemma_join_append(m, seq![Seq::<char>::empty()], "\n"@);
            assert(join(seq![Seq::<char>::empty()], "\n"@) =~= Seq::<char>::empty());
            assert(join(m, "\n"@) + "\n"@ + Seq::<char>::empty() =~= join(m, "\n"@) + nl);
        } else {
            assert(k1 =~= m);
            assert(join(m, "\n"@) + Seq::<char>::empty() =~= join(m, "\n"@));
        }
    }
    assert(join(k, "\n"@) == p + join(k1, "\n"@)) by {
        if lo == 1 {
            assert(k[0] =~= Seq::<char>::empty());
            assert(k =~= seq![Seq::<char>::empty()] + k1);
            lemma_join_append(seq![Seq::<char>::empty()], k1, "\n"@);
            assert(join(seq![Seq::<char>::empty()], "\n"@) =~= Seq::<char>::empty());
            assert(Seq::<char>::empty() + "\n"@ + join(k1, "\n"@) =~= nl + join(k1, "\n"@));
        } else {
            assert(Seq::<char>::empty() + join(k1, "\n"@) =~= join(k1, "\n"@));
        }
    }
    let j = join(m, "\n"@);
    lemma_join_ends(m, "\n"@);
    assert(clean_line(m[0]));
    assert(clean_line(m[m.len() - 1]));
    lemma_clean_line_ends(m[0]);
    lemma_clean_line_ends(m[m.len() - 1]);
    assert(all_space(sfx + nl)) by {
        assert forall|i: int| 0 <= i < (sfx + nl).len() implies is_space(#[trigger] (sfx + nl)[i]) by {
            if i < sfx.len() {
                assert((sfx + nl)[i] == sfx[i]);
            } else {
                assert((sfx + nl)[i] == nl[i - sfx.len()]);
            }
        }
    }
    assert(terminated(k) =~= p + j + (sfx + nl));
    lemma_trim_around(p, j, sfx + nl);
}

/// Stripping what `strip_html` returned changes nothing: its output has no tags,
/// its lines are trimmed, blank lines never come two in a row, and the whole is
/// trimmed, so a second pass finds nothing left to do.
pub proof fn plain_text_is_stable(html: Seq<char>)
    ensures
        plain_text(plain_text(html)) == plain_text(html),
{
    reveal_strlit("\n");
    lemma_plain_text_shape(html);
    stripped_text_is_plain(html);
    let x = plain_text(html);
    let m = core_lines(kept_lines(lines(strip_tags(html, false))).0);
    lemma_strip_tags_plain(x);
    if m.len() == 0 {
        assert(x =~= Seq::<char>::empty());
        assert(split_on(x, '\n') == seq![Seq::<char>::empty()]);
        assert(lines(x) =~= Seq::<Seq<char>>::empty());
        assert(collapse_blank_lines(Seq::<Seq<char>>::empty()).0 == Seq::<char>::empty());
        assert(trim_start(Seq::<char>::empty()) == Seq::<char>::empty());
        assert(trim_end(Seq::<char>::empty()) == Seq::<char>::empty());
        return;
    }
    assert forall|i: int| 0 <= i < m.len() implies free_of(#[trigger] m[i], |c: char| c == '\n') by {
        assert(clean_line(m[i]));
    }
    lemma_split_join(m);
    assert(lines(x) == m);
    lemma_collapse_kept(m);
    lemma_kept_of_tidy(m);
    lemma_terminated_join(m);
    lemma_join_ends(m, "\n"@);
    assert(clean_line(m[0]));
    assert(clean_line(m[m.len() - 1]));
    lemma_clean_line_ends(m[0]);
    lemma_clean_line_ends(m[m.len() - 1]);
    let nl: Seq<char> = seq!['\n'];
    assert(is_space('\n'));
    assert(all_space(nl));
    assert(all_space(Seq::<char>::empty()));
    assert(terminated(m) =~= Seq::<char>::empty() + x + nl);
    lemma_trim_around(Seq::<char>::empty(), x, nl);
}

/// No three newlines come in a row in `s`.
pub open spec fn no_three_newlines(s: Seq<char>) -> bool {
    forall|i: int| 0 <= i && i + 2 < s.len() ==> !(#[trigger] s[i] == '\n' && s[i + 1] == '\n' && s[i + 2] == '\n')
}

/// `s` ends with two newlines.
pub open spec fn ends_with_two_newlines(s: Seq<char>) -> bool {
    s.len() >= 2 && s[s.len() - 1] == '\n' && s[s.len() - 2] == '\n'
}

proof fn lemma_join_no_three_newlines(m: Seq<Seq<char>>)
    requires
        m.len() > 0,
        m[0].len() > 0,
        tidy(m),
    ensures
        no_three_newlines(join(m, "\n"@)),
        !ends_with_two_newlines(join(m, "\n"@)),
    decreases m.len(),
{
    reveal_strlit("\n");
    assert(clean_line(m[m.len() - 1]));
    let l = m.last();
    assert(forall|k: int| 0 <= k < l.len() ==> l[k] != '\n') by {
        assert forall|k: int| 0 <= k < l.len() implies l[k] != '\n' by {
            assert(!((|c: char| c == '\n')(l[k])));
        }
    }
    if m.len() == 1 {
        assert(join(m, "\n"@) == l);
        return;
    }
    let d = m.drop_last();
    assert(d[0] == m[0]);
    assert(tidy(d)) by {
        assert forall|i: int| 0 <= i < d.len() implies clean_line(#[trigger] d[i]) by {
            assert(d[i] == m[i]);
        }
        assert forall|i: int| 0 <= i < d.len() - 1 implies (#[trigger] d[i]).len() > 0 || d[i + 1].len() > 0 by {
            assert(d[i] == m[i]);
            assert(d[i + 1] == m[i + 1]);
        }
    }
    lemma_join_no_three_newlines(d);
    let j = join(d, "\n"@);
    let x = join(m, "\n"@);
    assert(x == j + "\n"@ + l);
    assert(x.len() == j.len() + 1 + l.len());
    assert forall|i: int| 0 <= i && i + 2 < x.len() implies !(#[trigger] x[i] == '\n' && x[i + 1] == '\n' && x[i + 2] == '\n') by {
        if i + 2 < j.len() {
            assert(x[i] == j[i] && x[i + 1] == j[i + 1] && x[i + 2] == j[i + 2]);
        } else if i + 2 == j.len() {
            assert(x[i] == j[i] && x[i + 1] == j[i + 1]);
        } else if i + 1 == j.len() {
            assert(x[i + 2] == l[0]);
        } else {
            assert(x[i + 2] == l[i + 2 - j.len() - 1]);
        }
    }
    if l.len() > 0 {
        assert(x[x.len() - 1] == l[l.len() - 1]);
    } else {
        assert(m[m.len() - 2].len() > 0 || m[m.len() - 1].len() > 0);
        assert(d.last() == m[m.len() - 2]);
        lemma_join_ends(d, "\n"@);
        assert(j.len() > 0);
        assert(x[x.len() - 2] == j[j.len() - 1]);
        assert(clean_line(d[d.len() - 1]));
        assert(!((|c: char| c == '\n')(d.last()[d.last().len() - 1])));
    }
}

/// The lines of what `strip_html` returns are tidy: each is trimmed, no two blank
/// lines come in a row, and so no three newlines come in a row.
pub proof fn stripped_lines_are_tidy(html: Seq<char>)
    ensures
        forall|i: int| 0 <= i < lines(plain_text(html)).len() ==> trim(#[trigger] lines(plain_text(html))[i])
            == lines(plain_text(html))[i],
        forall|i: int| 0 <= i < lines(plain_text(html)).len() - 1 ==> (#[trigger] lines(plain_text(html))[i]).len() > 0
            || lines(plain_text(html))[i + 1].len() > 0,
        no_three_newlines(plain_text(html)),
{
    reveal_strlit("\n");
    lemma_plain_text_shape(html);
    let x = plain_text(html);
    let m = core_lines(kept_lines(lines(strip_tags(html, false))).0);
    if m.len() == 0 {
        assert(x =~= Seq::<char>::empty());
        assert(split_on(x, '\n') == seq![Seq::<char>::empty()]);
        assert(lines(x) =~= Seq::<Seq<char>>::empty());
        return;
    }
    assert forall|i: int| 0 <= i < m.len() implies free_of(#[trigger] m[i], |c: char| c == '\n') by {
        assert(clean_line(m[i]));
    }
    lemma_split_join(m);
    assert(lines(x) == m);
    assert forall|i: int| 0 <= i < lines(x).len() implies trim(#[trigger] lines(x)[i]) == lines(x)[i] by {
        assert(clean_line(m[i]));
    }
    lemma_join_no_three_newlines(m);
}

// ── Unread item ids ──────────────────────────────────────────────────────────

/// The id a piece of an id list holds: a non-empty piece, trimmed, parsed as a `u64`.
pub open spec fn id_of_piece(p: Seq<char>) -> Option<u64> {
    if p.len() > 0 { parse_u64(trim(p)) } else { None }
}

/// The ids held by `pieces`: each non-empty piece, trimmed, that parses as a `u64`,
/// in order; the others are skipped.
pub open spec fn ids_of_pieces(pieces: Seq<Seq<char>>) -> Seq<u64>
    decreases pieces.len(),
{
    if pieces.len() == 0 {
        seq![]
    } else {
        let rest = ids_of_pieces(pieces.drop_last());
        match id_of_piece(pieces.last()) {
            Some(id) => rest.push(id),
            None => rest,
        }
    }
}

/// The ids in a comma-separated id list such as `"1,2,3,42,100"`.
pub open spec fn unread_ids(s: Seq<char>) -> Seq<u64> {
    ids_of_pieces(split_on(s, ','))
}

/// Parses the `unread_item_ids` field of a Fever reply: splits at commas, skips
/// empty pieces, and keeps each trimmed piece that parses as a `u64`.
pub fn parse_unread_ids(raw: &str) -> (ids: Vec<u64>)
    ensures
        ids@ == unread_ids(raw@),
{
    let t = chars_of(raw);
    let mut ids: Vec<u64> = Vec::new();
    let mut start: usize = 0;
    let mut j: usize = 0;
    let ghost mut done: Seq<Seq<char>> = seq![];
    assert(t@.take(0) =~= seq![]);
    assert(t@.subrange(0, 0) =~= seq![]);
    while j < t.len()
        invariant
            start <= j <= t@.len(),
            split_on(t@.take(j as int), ',') == done.push(t@.subrange(start as int, j as int)),
            ids@ == ids_of_pieces(done),
        decreases t.len() - j,
    {
        proof {
            lemma_take_step(t@, j as int);
        }
        if t[j] == ',' {
            proof {
                assert(done.push(t@.subrange(start as int, j as int)).drop_last() =~= done);
            }
            push_parsed_id(&mut ids, &t, start, j);
            proof {
                done = done.push(t@.subrange(start as int, j as int));
                assert(t@.subrange(j + 1, j + 1) =~= seq![]);
            }
            start = j + 1;
        } else {
            proof {
                assert(t@.subrange(start as int, j + 1) =~= t@.subrange(start as int, j as int).push(t[j as int]));
                assert(done.push(t@.subrange(start as int, j as int)).update(done.len() as int,
                    t@.subrange(start as int, j as int).push(t[j as int])) =~= done.push(t@.subrange(start as int, j + 1)));
            }
        }
        j = j + 1;
    }
    assert(t@.take(t@.len() as int) =~= t@);
    assert(done.push(t@.subrange(start as int, t@.len() as int)).drop_last() =~= done);
    push_parsed_id(&mut ids, &t, start, t.len());
    ids
}

/// Appends the id held by `t[lo..hi]`, if it holds one.
fn push_parsed_id(ids: &mut Vec<u64>, t: &[char], lo: usize, hi: usize)
    requires
        lo <= hi <= t@.len(),
    ensures
        final(ids)@ == match id_of_piece(t@.subrange(lo as int, hi as int)) {
            Some(id) => old(ids)@.push(id),
            None => old(ids)@,
        },
{
    if lo < hi {
        let piece = trim_range(t, lo, hi);
        match parse_u64_chars(&piece) {
            Some(id) => ids.push(id),
            None => {},
        }
    }
}


proof fn lemma_strip_tags_plain(s: Seq<char>)
    requires
        free_of(s, |c: char| is_angle(c)),
    ensures
        strip_tags(s, false) == s,
    decreases s.len(),
{
    if s.len() > 0 {
        assert(!is_angle(s[0]));
        assert(free_of(s.drop_first(), |c: char| is_angle(c))) by {
            assert forall|i: int| 0 <= i < s.drop_first().len() implies !is_angle(#[trigger] s.drop_first()[i]) by {
                assert(s.drop_first()[i] == s[i + 1]);
            }
        }
        lemma_strip_tags_plain(s.drop_first());
        assert(seq![s[0]] + s.drop_first() =~= s);
    }
}

/// A single line without tags and with nothing to trim is already plain text:
/// `strip_html` gives it back unchanged.
pub proof fn plain_line_unchanged(s: Seq<char>)
    requires
        s.len() > 0,
        free_of(s, |c: char| is_angle(c)),
        forall|i: int| 0 <= i < s.len() ==> (#[trigger] s[i]) != '\n',
        !is_space(s[0]),
        !is_space(s.last()),
    ensures
        plain_text(s) == s,
{
    lemma_strip_tags_plain(s);
    lemma_split_single(s, '\n');
    assert(lines(s) == seq![s]);
    assert(seq![s].drop_last() =~= Seq::<Seq<char>>::empty());
    assert(trim_start(s) == s);
    assert(trim_end(s) == s);
    assert(collapse_blank_lines(Seq::<Seq<char>>::empty()) == (Seq::<char>::empty(), 0nat));
    assert(seq![s].last() == s);
    let out = collapse_blank_lines(seq![s]).0;
    assert(out =~= s.push('\n'));
    assert(is_space('\n'));
    assert(s.push('\n').drop_last() =~= s);
    assert(trim_end(s.push('\n')) == s);
    assert(s.push('\n')[0] == s[0]);
    assert(trim_start(s.push('\n')) == s.push('\n'));
}

// ── Reply types ──────────────────────────────────────────────────────────────

impl Item {
    /// A copy of the item.
    pub fn duplicate(&self) -> (c: Item)
        ensures
            c == *self,
    {
        Item {
            id: self.id,
            feed_id: self.feed_id,
            title: self.title.clone(),
            author: self.author.clone(),
            html: self.html.clone(),
            url: self.url.clone(),
            is_read: self.is_read,
            created_on_time: self.created_on_time,
        }
    }
}

/// A feed as the Fever API lists it.
#[derive(Debug, Clone)]
pub struct Feed {
    pub id: u64,
    pub title: String,
    pub url: String,
}

/// An article as the Fever API lists it.
#[derive(Debug, Clone)]
pub struct Item {
    pub id: u64,
    pub feed_id: u64,
    pub title: String,
    pub author: String,
    pub html: String,
    pub url: String,
    pub is_read: u8,
    pub created_on_time: u64,
}

/// The fields of a Fever reply that the client reads.
#[derive(Debug)]
pub struct FeverResponse {
    pub auth: u8,
    pub feeds: Vec<Feed>,
    pub items: Vec<Item>,
    pub total_items: Option<u64>,
    pub unread_item_ids: Option<String>,
}

/// Errors of the Fever client.
#[derive(Debug)]
pub enum Error {
    /// The HTTP exchange failed; the text says how.
    Http(String),
    AuthFailed,
    InvalidResponse(String),
}

impl Error {
    /// The text of the error's message.
    pub open spec fn message_view(&self) -> Seq<char> {
        match self {
            Error::Http(e) => "HTTP request failed: "@ + e@,
            Error::AuthFailed => "Fever API authentication failed"@,
            Error::InvalidResponse(e) => "Invalid response from Fever API: "@ + e@,
        }
    }

    /// The error's message.
    pub fn message(&self) -> (m: String)
        ensures
            m@ == self.message_view(),
    {
        match self {
            Error::Http(e) => {
                let mut m = "HTTP request failed: ".to_owned();
                push_str(&mut m, e.as_str());
                m
            },
            Error::AuthFailed => "Fever API authentication failed".to_owned(),
            Error::InvalidResponse(e) => {
                let mut m = "Invalid response from Fever API: ".to_owned();
                push_str(&mut m, e.as_str());
                m
            },
        }
    }
}

// ── API key ──────────────────────────────────────────────────────────────────

/// The MD5 digest of `data`, as the `md5` crate computes it.
pub uninterp spec fn md5_of(data: Seq<u8>) -> Seq<u8>;

/// `md5::compute`: the 16-byte MD5 digest of `data`. The contract names the
/// result and claims nothing about the algorithm itself.
#[verifier::external_body]
fn md5_digest(data: &[u8]) -> (d: [u8; 16])
    ensures
        d@ == md5_of(data@),
{
    md5::compute(data).0
}

/// The lowercase hexadecimal digit for `n < 16`.
pub open spec fn hex_digit(n: nat) -> char {
    if n < 10 { digit_char(n) } else if n == 10 { 'a' } else if n == 11 { 'b' }
    else if n == 12 { 'c' } else if n == 13 { 'd' } else if n == 14 { 'e' } else { 'f' }
}

/// `bytes` as lowercase hex, two digits per byte (the `{:x}` form of an MD5 digest).
pub open spec fn hex_lower(bytes: Seq<u8>) -> Seq<char>
    decreases bytes.len(),
{
    if bytes.len() == 0 {
        seq![]
    } else {
        hex_lower(bytes.drop_last()) + seq![hex_digit((bytes.last() / 16) as nat), hex_digit((bytes.last() % 16) as nat)]
    }
}

/// `c` is a lowercase hexadecimal digit.
pub open spec fn is_hex_lower(c: char) -> bool {
    ('0' <= c && c <= '9') || ('a' <= c && c <= 'f')
}

/// Two lowercase hex digits per byte.
proof fn lemma_hex_lower_shape(bytes: Seq<u8>)
    ensures
        hex_lower(bytes).len() == 2 * bytes.len(),
        forall|i: int| 0 <= i < hex_lower(bytes).len() ==> is_hex_lower(#[trigger] hex_lower(bytes)[i]),
    decreases bytes.len(),
{
    if bytes.len() > 0 {
        lemma_hex_lower_shape(bytes.drop_last());
        let h = hex_lower(bytes.drop_last());
        let hi = (bytes.last() / 16) as nat;
        let lo = (bytes.last() % 16) as nat;
        assert(is_hex_lower(hex_digit(hi)) && is_hex_lower(hex_digit(lo))) by {
            assert(hi < 16 && lo < 16);
            reveal_with_fuel(digit_char, 1);
        }
        let r = hex_lower(bytes);
        assert forall|i: int| 0 <= i < r.len() implies is_hex_lower(#[trigger] r[i]) by {
            if i < h.len() {
                assert(r[i] == h[i]);
            } else if i == h.len() {
                assert(r[i] == hex_digit(hi));
            } else {
                assert(r[i] == hex_digit(lo));
            }
        }
    }
}

fn hex_digit_exec(n: u8) -> (c: char)
    requires
        n < 16,
    ensures
        c == hex_digit(n as nat),
{
    if n < 10 {
        let d = n as u64;
        if d == 0 { '0' } else if d == 1 { '1' } else if d == 2 { '2' } else if d == 3 { '3' }
        else if d == 4 { '4' } else if d == 5 { '5' } else if d == 6 { '6' } else if d == 7 { '7' }
        else if d == 8 { '8' } else { '9' }
    } else if n == 10 { 'a' } else if n == 11 { 'b' } else if n == 12 { 'c' }
    else if n == 13 { 'd' } else if n == 14 { 'e' } else { 'f' }
}

/// Formats `bytes` as lowercase hex.
pub fn to_hex_lower(bytes: &[u8]) -> (s: String)
    ensures
        s@ == hex_lower(bytes@),
{
    let mut s = String::new();
    let mut i: usize = 0;
    assert(bytes@.take(0) =~= seq![]);
    while i < bytes.len()
        invariant
            i <= bytes@.len(),
            s@ == hex_lower(bytes@.take(i as int)),
        decreases bytes.len() - i,
    {
        let b = bytes[i];
        push_char(&mut s, hex_digit_exec(b / 16));
        push_char(&mut s, hex_digit_exec(b % 16));
        assert(bytes@.take(i + 1).drop_last() =~= bytes@.take(i as int));
        i = i + 1;
    }
    assert(bytes@.take(bytes@.len() as int) =~= bytes@);
    s
}

/// The Fever API key for a user: the hex MD5 digest of `username:password` in UTF-8.
pub open spec fn api_key_for(username: Seq<char>, password: Seq<char>) -> Seq<char> {
    hex_lower(md5_of(vstd::utf8::encode_utf8(username + seq![':'] + password)))
}

// ── Client ───────────────────────────────────────────────────────────────────

/// The address of a Fever endpoint and the key that authenticates to it.
pub struct FeverClient {
    url: String,
    api_key: String,
}

/// One POST to the Fever endpoint: the query pairs of the URL and the form body.
pub struct FeverRequest {
    pub url: String,
    pub query: Vec<(String, String)>,
    pub form: Vec<(String, String)>,
}

/// The views of string pairs.
pub open spec fn pairs_view(v: Seq<(String, String)>) -> Seq<(Seq<char>, Seq<char>)> {
    v.map_values(|p: (String, String)| (p.0@, p.1@))
}

/// The query of a Fever request: `api`, then each operation as a bare flag,
/// then the extra key/value pairs.
pub open spec fn fever_query(ops: Seq<Seq<char>>, extra: Seq<(Seq<char>, Seq<char>)>) -> Seq<(Seq<char>, Seq<char>)> {
    seq![("api"@, Seq::<char>::empty())] + ops.map_values(|o: Seq<char>| (o, Seq::<char>::empty())) + extra
}

proof fn lemma_pairs_view_push(v: Seq<(String, String)>, p: (String, String))
    ensures
        pairs_view(v.push(p)) == pairs_view(v).push((p.0@, p.1@)),
{
    assert(pairs_view(v.push(p)) =~= pairs_view(v).push((p.0@, p.1@)));
}

impl FeverClient {
    pub closed spec fn url_view(&self) -> Seq<char> {
        self.url@
    }

    pub closed spec fn api_key_view(&self) -> Seq<char> {
        self.api_key@
    }

    /// A client for the endpoint `url`, authenticating as `username`; its API key is
    /// always 32 lowercase hex digits.
    pub fn new(url: &str, username: &str, password: &str) -> (c: Self)
        ensures
            c.url_view() == url@,
            c.api_key_view() == api_key_for(username@, password@),
            c.api_key_view().len() == 32,
            forall|i: int| 0 <= i < 32 ==> is_hex_lower(#[trigger] c.api_key_view()[i]),
    {
        let mut raw = username.to_owned();
        push_char(&mut raw, ':');
        push_str(&mut raw, password);
        assert(raw@ =~= username@ + seq![':'] + password@);
        let digest = md5_digest(raw.as_str().as_bytes());
        let api_key = to_hex_lower(&digest);
        proof {
            lemma_hex_lower_shape(digest@);
        }
        FeverClient { url: url.to_owned(), api_key }
    }

    /// The endpoint's URL.
    pub fn url(&self) -> (u: &str)
        ensures
            u@ == self.url_view(),
    {
        self.url.as_str()
    }

    /// The key sent with every request.
    pub fn api_key(&self) -> (k: &str)
        ensures
            k@ == self.api_key_view(),
    {
        self.api_key.as_str()
    }

    /// The request for the operations `ops` with the extra query pairs `extra`;
    /// only the API key goes in the form body.
    pub fn request(&self, ops: &[String], extra: &[(String, String)]) -> (r: FeverRequest)
        ensures
            r.url@ == self.url_view(),
            pairs_view(r.query@) == fever_query(ops@.map_values(|o: String| o@), pairs_view(extra@)),
            pairs_view(r.form@) == seq![("api_key"@, self.api_key_view())],
    {
        let mut query: Vec<(String, String)> = Vec::new();
        query.push(("api".to_owned(), String::new()));
        let mut i: usize = 0;
        let ghost opsv = ops@.map_values(|o: String| o@);
        assert(pairs_view(query@) =~= seq![("api"@, Seq::<char>::empty())] + opsv.take(0).map_values(|o: Seq<char>| (o, Seq::<char>::empty())));
        while i < ops.len()
            invariant
                i <= ops@.len(),
                opsv == ops@.map_values(|o: String| o@),
                pairs_view(query@) == seq![("api"@, Seq::<char>::empty())] + opsv.take(i as int).map_values(|o: Seq<char>| (o, Seq::<char>::empty())),
            decreases ops.len() - i,
        {
            let pair = (ops[i].clone(), String::new());
            proof {
                lemma_pairs_view_push(query@, pair);
            }
            query.push(pair);
            i = i + 1;
            assert(opsv.take(i as int) =~= opsv.take(i - 1).push(opsv[i - 1]));
            assert(pairs_view(query@) =~= seq![("api"@, Seq::<char>::empty())] + opsv.take(i as int).map_values(|o: Seq<char>| (o, Seq::<char>::empty())));
        }
        assert(opsv.take(ops@.len() as int) =~= opsv);
        let ghost base = query@;
        let mut k: usize = 0;
        while k < extra.len()
            invariant
                k <= extra@.len(),
                pairs_view(query@) == pairs_view(base) + pairs_view(extra@.take(k as int)),
            decreases extra.len() - k,
        {
            let (a, b) = &extra[k];
            let pair = (a.clone(), b.clone());
            proof {
                lemma_pairs_view_push(query@, pair);
            }
            query.push(pair);
            k = k + 1;
            assert(extra@.take(k as int) =~= extra@.take(k - 1).push(extra@[k - 1]));
            assert(pairs_view(query@) =~= pairs_view(base) + pairs_view(extra@.take(k as int)));
        }
        assert(extra@.take(extra@.len() as int) =~= extra@);
        let mut form: Vec<(String, String)> = Vec::new();
        form.push(("api_key".to_owned(), self.api_key.clone()));
        assert(pairs_view(form@) =~= seq![("api_key"@, self.api_key_view())]);
        assert(pairs_view(query@) =~= fever_query(opsv, pairs_view(extra@)));
        FeverRequest { url: self.url.clone(), query, form }
    }

    /// The request that lists the feeds (`?api&feeds`).
    pub fn feeds_request(&self) -> (r: FeverRequest)
        ensures
            r.url@ == self.url_view(),
            pairs_view(r.query@) == seq![("api"@, Seq::<char>::empty()), ("feeds"@, Seq::<char>::empty())],
            pairs_view(r.form@) == seq![("api_key"@, self.api_key_view())],
    {
        let ops = vec!["feeds".to_owned()];
        let extra: Vec<(String, String)> = Vec::new();
        let r = self.request(&ops, &extra);
        assert(pairs_view(r.query@) =~= seq![("api"@, Seq::<char>::empty()), ("feeds"@, Seq::<char>::empty())]);
        r
    }

    /// The request that lists the unread item ids (`?api&unread_item_ids`).
    pub fn unread_ids_request(&self) -> (r: FeverRequest)
        ensures
            r.url@ == self.url_view(),
            pairs_view(r.query@) == seq![("api"@, Seq::<char>::empty()), ("unread_item_ids"@, Seq::<char>::empty())],
            pairs_view(r.form@) == seq![("api_key"@, self.api_key_view())],
    {
        let ops = vec!["unread_item_ids".to_owned()];
        let extra: Vec<(String, String)> = Vec::new();
        let r = self.request(&ops, &extra);
        assert(pairs_view(r.query@) =~= seq![("api"@, Seq::<char>::empty()), ("unread_item_ids"@, Seq::<char>::empty())]);
        r
    }

    /// The request for the items after `since_id` (`?api&items&since_id=N`).
    pub fn items_request(&self, since_id: u64) -> (r: FeverRequest)
        ensures
            r.url@ == self.url_view(),
            pairs_view(r.query@) == seq![("api"@, Seq::<char>::empty()), ("items"@, Seq::<char>::empty()),
                ("since_id"@, decimal(since_id as nat))],
            pairs_view(r.form@) == seq![("api_key"@, self.api_key_view())],
    {
        let ops = vec!["items".to_owned()];
        let extra = vec![("since_id".to_owned(), decimal_string(since_id))];
        let r = self.request(&ops, &extra);
        assert(pairs_view(r.query@) =~= seq![("api"@, Seq::<char>::empty()), ("items"@, Seq::<char>::empty()),
            ("since_id"@, decimal(since_id as nat))]);
        r
    }

    /// The request that marks item `id` as read (`?api&mark=item&as=read&id=N`).
    pub fn mark_read_request(&self, id: u64) -> (r: FeverRequest)
        ensures
            r.url@ == self.url_view(),
            pairs_view(r.query@) == seq![("api"@, Seq::<char>::empty()), ("mark"@, "item"@), ("as"@, "read"@),
                ("id"@, decimal(id as nat))],
            pairs_view(r.form@) == seq![("api_key"@, self.api_key_view())],
    {
        let ops: Vec<String> = Vec::new();
        let extra = vec![("mark".to_owned(), "item".to_owned()), ("as".to_owned(), "read".to_owned()),
            ("id".to_owned(), decimal_string(id))];
        let r = self.request(&ops, &extra);
        assert(pairs_view(r.query@) =~= seq![("api"@, Seq::<char>::empty()), ("mark"@, "item"@), ("as"@, "read"@),
            ("id"@, decimal(id as nat))]);
        r
    }
}

/// Accepts a decoded Fever reply only when it reports a successful authentication.
pub fn check_auth(resp: FeverResponse) -> (r: Result<FeverResponse, Error>)
    ensures
        resp.auth == 1 ==> r == Ok::<FeverResponse, Error>(resp),
        resp.auth != 1 ==> r matches Err(Error::AuthFailed),
{
    if resp.auth != 1 {
        Err(Error::AuthFailed)
    } else {
        Ok(resp)
    }
}

/// The unread ids of a reply: the parsed `unread_item_ids` field, or none.
pub fn reply_unread_ids(resp: &FeverResponse) -> (ids: Vec<u64>)
    ensures
        ids@ == match resp.unread_item_ids {
            Some(s) => unread_ids(s@),
            None => unread_ids(Seq::<char>::empty()),
        },
{
    match &resp.unread_item_ids {
        Some(s) => parse_unread_ids(s.as_str()),
        None => {
            let empty = String::new();
            parse_unread_ids(empty.as_str())
        },
    }
}


// ── Collecting recent items ──────────────────────────────────────────────────

/// The oldest creation time still collected when looking `hours` back from `now_secs`.
pub fn cutoff_secs(now_secs: u64, hours: u64) -> (c: u64)
    requires
        hours * 3600 <= u64::MAX,
    ensures
        c == if now_secs >= hours * 3600 { now_secs - hours * 3600 } else { 0 },
{
    now_secs.saturating_sub(hours * 3600)
}

/// The largest id in `items` (0 for none).
pub open spec fn max_id(items: Seq<Item>) -> u64
    decreases items.len(),
{
    if items.len() == 0 {
        0
    } else {
        let m = max_id(items.drop_last());
        if items.last().id > m { items.last().id } else { m }
    }
}

/// `item` is recent enough and, when only unread items are wanted, unread.
pub open spec fn wanted(item: Item, cutoff: u64, unread: Option<Seq<u64>>) -> bool {
    &&& item.created_on_time >= cutoff
    &&& match unread {
        Some(ids) => ids.contains(item.id),
        None => true,
    }
}

/// The wanted items of `items`, in order.
pub open spec fn wanted_items(items: Seq<Item>, cutoff: u64, unread: Option<Seq<u64>>) -> Seq<Item>
    decreases items.len(),
{
    if items.len() == 0 {
        seq![]
    } else {
        let rest = wanted_items(items.drop_last(), cutoff, unread);
        if wanted(items.last(), cutoff, unread) { rest.push(items.last()) } else { rest }
    }
}

/// Every item of `items` is wanted.
pub open spec fn all_wanted(items: Seq<Item>, cutoff: u64, unread: Option<Seq<u64>>) -> bool {
    forall|i: int| 0 <= i < items.len() ==> wanted(#[trigger] items[i], cutoff, unread)
}

proof fn lemma_wanted_items_all_wanted(items: Seq<Item>, cutoff: u64, unread: Option<Seq<u64>>)
    ensures
        all_wanted(wanted_items(items, cutoff, unread), cutoff, unread),
    decreases items.len(),
{
    if items.len() > 0 {
        lemma_wanted_items_all_wanted(items.drop_last(), cutoff, unread);
    }
}

/// What a page keeps, stated item by item: every kept item was created at or after
/// the cutoff, is unread when only unread items are wanted, and comes from the page;
/// and every item of the page that meets both conditions is kept.
pub proof fn kept_items_are_recent_and_unread(items: Seq<Item>, cutoff: u64, unread: Option<Seq<u64>>)
    ensures
        forall|k: int| 0 <= k < wanted_items(items, cutoff, unread).len() ==> {
            &&& (#[trigger] wanted_items(items, cutoff, unread)[k]).created_on_time >= cutoff
            &&& (unread matches Some(ids) ==> ids.contains(wanted_items(items, cutoff, unread)[k].id))
            &&& items.contains(wanted_items(items, cutoff, unread)[k])
        },
        forall|j: int| 0 <= j < items.len() && (#[trigger] items[j]).created_on_time >= cutoff
            && (unread matches Some(ids) ==> ids.contains(items[j].id))
            ==> wanted_items(items, cutoff, unread).contains(items[j]),
    decreases items.len(),
{
    if items.len() > 0 {
        let d = items.drop_last();
        kept_items_are_recent_and_unread(d, cutoff, unread);
        let w = wanted_items(items, cutoff, unread);
        let wd = wanted_items(d, cutoff, unread);
        assert forall|k: int| 0 <= k < w.len() implies {
            &&& (#[trigger] w[k]).created_on_time >= cutoff
            &&& (unread matches Some(ids) ==> ids.contains(w[k].id))
            &&& items.contains(w[k])
        } by {
            if k < wd.len() {
                assert(w[k] == wd[k]);
                let jj = choose|jj: int| 0 <= jj < d.len() && d[jj] == wd[k];
                assert(items[jj] == d[jj]);
            } else {
                assert(w[k] == items.last());
                assert(items[items.len() - 1] == items.last());
            }
        }
        assert forall|j: int| 0 <= j < items.len() && (#[trigger] items[j]).created_on_time >= cutoff
            && (unread matches Some(ids) ==> ids.contains(items[j].id)) implies w.contains(items[j]) by {
            if j < d.len() {
                assert(items[j] == d[j]);
                assert(wd.contains(d[j]));
                let kk = choose|kk: int| 0 <= kk < wd.len() && wd[kk] == d[j];
                assert(w[kk] == wd[kk]);
            } else {
                assert(items[j] == items.last());
                assert(w[w.len() - 1] == items.last());
            }
        }
    }
}

/// The state of fetching every item page by page: the next `since_id` to ask for,
/// the items kept so far, and whether the last page has been seen.
pub struct FeverPager {
    pub since_id: u64,
    pub cutoff: u64,
    pub unread: Option<Vec<u64>>,
    pub items: Vec<Item>,
    pub finished: bool,
}

impl FeverPager {
    pub open spec fn unread_view(&self) -> Option<Seq<u64>> {
        match self.unread {
            Some(v) => Some(v@),
            None => None,
        }
    }

    /// Starts at `since_id` 0 with nothing kept; `unread`, when given, limits the
    /// kept items to those ids.
    pub fn new(cutoff: u64, unread: Option<Vec<u64>>) -> (p: Self)
        ensures
            p.since_id == 0,
            p.cutoff == cutoff,
            p.unread == unread,
            p.items@ == Seq::<Item>::empty(),
            !p.finished,
            all_wanted(p.items@, p.cutoff, p.unread_view()),
    {
        FeverPager { since_id: 0, cutoff, unread, items: Vec::new(), finished: false }
    }

    /// The `since_id` of the next page to fetch, or `None` once the last page was seen.
    pub fn next_since_id(&self) -> (r: Option<u64>)
        ensures
            r == if self.finished { None } else { Some(self.since_id) },
    {
        if self.finished { None } else { Some(self.since_id) }
    }

    fn is_wanted(&self, item: &Item) -> (b: bool)
        ensures
            b == wanted(*item, self.cutoff, self.unread_view()),
            b ==> item.created_on_time >= self.cutoff,
            b ==> (self.unread matches Some(ids) ==> ids@.contains(item.id)),
            item.created_on_time >= self.cutoff && (self.unread matches Some(ids) ==> ids@.contains(item.id)) ==> b,
    {
        if item.created_on_time < self.cutoff {
            return false;
        }
        match &self.unread {
            None => true,
            Some(ids) => {
                let mut i: usize = 0;
                while i < ids.len()
                    invariant
                        i <= ids@.len(),
                        self.unread_view() == Some(ids@),
                        item.created_on_time >= self.cutoff,
                        forall|k: int| 0 <= k < i ==> ids@[k] != item.id,
                    decreases ids.len() - i,
                {
                    if ids[i] == item.id {
                        assert(ids@[i as int] == item.id);
                        return true;
                    }
                    i = i + 1;
                }
                false
            },
        }
    }

    /// Takes in the page fetched with the current `since_id`. An empty page ends the
    /// walk; otherwise its wanted items are kept, and the walk goes on from the
    /// page's largest id unless that id does not move past the current `since_id`.
    pub fn accept(&mut self, batch: Vec<Item>)
        requires
            !old(self).finished,
        ensures
            final(self).cutoff == old(self).cutoff,
            final(self).unread == old(self).unread,
            batch@.len() == 0 ==> {
                &&& final(self).finished
                &&& final(self).since_id == old(self).since_id
                &&& final(self).items@ == old(self).items@
            },
            batch@.len() > 0 ==> {
                &&& final(self).items@ == old(self).items@ + wanted_items(batch@, old(self).cutoff, old(self).unread_view())
                &&& final(self).finished == (max_id(batch@) <= old(self).since_id)
                &&& final(self).since_id == if max_id(batch@) <= old(self).since_id { old(self).since_id } else { max_id(batch@) }
            },
            all_wanted(old(self).items@, old(self).cutoff, old(self).unread_view())
                ==> all_wanted(final(self).items@, final(self).cutoff, final(self).unread_view()),
            !final(self).finished ==> final(self).since_id > old(self).since_id,
            forall|k: int| old(self).items@.len() <= k < final(self).items@.len() ==> {
                &&& (#[trigger] final(self).items@[k]).created_on_time >= old(self).cutoff
                &&& (old(self).unread matches Some(ids) ==> ids@.contains(final(self).items@[k].id))
                &&& batch@.contains(final(self).items@[k])
            },
            forall|j: int| 0 <= j < batch@.len() && (#[trigger] batch@[j]).created_on_time >= old(self).cutoff
                && (old(self).unread matches Some(ids) ==> ids@.contains(batch@[j].id))
                ==> final(self).items@.contains(batch@[j]),
            (forall|k: int| 0 <= k < old(self).items@.len() ==> (#[trigger] old(self).items@[k]).created_on_time
                >= old(self).cutoff) ==> (forall|k: int| 0 <= k < final(self).items@.len()
                ==> (#[trigger] final(self).items@[k]).created_on_time >= final(self).cutoff),
    {
        if batch.len() == 0 {
            self.finished = true;
            return;
        }
        let ghost start = self.items@;
        let mut m: u64 = 0;
        let mut i: usize = 0;
        assert(batch@.take(0) =~= seq![]);
        assert(start + wanted_items(batch@.take(0), self.cutoff, self.unread_view()) =~= start);
        while i < batch.len()
            invariant
                i <= batch@.len(),
                m == max_id(batch@.take(i as int)),
                self.cutoff == old(self).cutoff,
                self.unread == old(self).unread,
                self.since_id == old(self).since_id,
                self.items@ == start + wanted_items(batch@.take(i as int), self.cutoff, self.unread_view()),
                !self.finished,
            decreases batch.len() - i,
        {
            let item = &batch[i];
            assert(batch@.take(i + 1).drop_last() =~= batch@.take(i as int));
            if item.id > m {
                m = item.id;
            }
            if self.is_wanted(item) {
                self.items.push(item.duplicate());
                assert(self.items@ =~= start + wanted_items(batch@.take(i + 1), self.cutoff, self.unread_view()));
            }
            i = i + 1;
        }
        assert(batch@.take(batch@.len() as int) =~= batch@);
        proof {
            lemma_wanted_items_all_wanted(batch@, self.cutoff, self.unread_view());
            let w = wanted_items(batch@, self.cutoff, self.unread_view());
            assert forall|k: int| 0 <= k < self.items@.len() && all_wanted(start, self.cutoff, self.unread_view())
                implies wanted(#[trigger] self.items@[k], self.cutoff, self.unread_view()) by {
                if k < start.len() {
                    assert(self.items@[k] == start[k]);
                } else {
                    assert(self.items@[k] == w[k - start.len()]);
                }
            }
            kept_items_are_recent_and_unread(batch@, self.cutoff, self.unread_view());
            assert forall|k: int| start.len() <= k < self.items@.len() implies {
                &&& (#[trigger] self.items@[k]).created_on_time >= self.cutoff
                &&& (self.unread matches Some(ids) ==> ids@.contains(self.items@[k].id))
                &&& batch@.contains(self.items@[k])
            } by {
                assert(self.items@[k] == w[k - start.len()]);
            }
            assert forall|j: int| 0 <= j < batch@.len() && (#[trigger] batch@[j]).created_on_time >= self.cutoff
                && (self.unread matches Some(ids) ==> ids@.contains(batch@[j].id))
                implies self.items@.contains(batch@[j]) by {
                assert(w.contains(batch@[j]));
                let kk = choose|kk: int| 0 <= kk < w.len() && w[kk] == batch@[j];
                assert(self.items@[start.len() + kk] == w[kk]);
            }
            assert forall|k: int| 0 <= k < self.items@.len() && (forall|q: int| 0 <= q < start.len()
                ==> (#[trigger] start[q]).created_on_time >= self.cutoff)
                implies (#[trigger] self.items@[k]).created_on_time >= self.cutoff by {
                if k < start.len() {
                    assert(self.items@[k] == start[k]);
                } else {
                    assert(self.items@[k] == w[k - start.len()]);
                }
            }
        }
        if m <= self.since_id {
            self.finished = true;
        } else {
            self.since_id = m;
        }
    }
}

/// The title of the feed with id `id` (the last listed one if several share it),
/// or `Unknown Feed`.
pub open spec fn feed_title(feeds: Seq<Feed>, id: u64) -> Seq<char>
    decreases feeds.len(),
{
    if feeds.len() == 0 {
        "Unknown Feed"@
    } else if feeds.last().id == id {
        feeds.last().title@
    } else {
        feed_title(feeds.drop_last(), id)
    }
}

/// The text block for one item.
pub open spec fn item_text(feeds: Seq<Feed>, item: Item) -> Seq<char> {
    "Feed: "@ + feed_title(feeds, item.feed_id) + "\nTitle: "@ + item.title@ + "\nURL: "@ + item.url@
        + "\n\n"@ + plain_text(item.html@)
}

/// The text sent for the collected `items`, and their ids.
pub open spec fn items_digest(feeds: Seq<Feed>, items: Seq<Item>) -> (Seq<char>, Seq<u64>) {
    if items.len() == 0 {
        ("No new articles in the configured time window."@, seq![])
    } else {
        (join(items.map_values(|i: Item| item_text(feeds, i)), "\n\n---\n\n"@), items.map_values(|i: Item| i.id))
    }
}

fn feed_title_exec(feeds: &Vec<Feed>, id: u64) -> (t: String)
    ensures
        t@ == feed_title(feeds@, id),
{
    let mut i = feeds.len();
    assert(feeds@.take(feeds@.len() as int) =~= feeds@);
    while i > 0
        invariant
            i <= feeds@.len(),
            feed_title(feeds@, id) == feed_title(feeds@.take(i as int), id),
        decreases i,
    {
        assert(feeds@.take(i as int).drop_last() =~= feeds@.take(i - 1));
        if feeds[i - 1].id == id {
            return feeds[i - 1].title.clone();
        }
        i = i - 1;
    }
    "Unknown Feed".to_owned()
}

/// Renders the collected `items` as text (each with its feed's title, title, URL
/// and plain text, separated by rules) together with their ids; with no items,
/// a note saying so and no ids.
pub fn format_items(feeds: &Vec<Feed>, items: &Vec<Item>) -> (r: (String, Vec<u64>))
    ensures
        (r.0@, r.1@) == items_digest(feeds@, items@),
{
    assert(feeds@.take(feeds@.len() as int) =~= feeds@);
    if items.len() == 0 {
        return ("No new articles in the configured time window.".to_owned(), Vec::new());
    }
    let mut parts: Vec<String> = Vec::new();
    let mut ids: Vec<u64> = Vec::new();
    let mut i: usize = 0;
    while i < items.len()
        invariant
            i <= items@.len(),
            parts@.map_values(|p: String| p@) == items@.take(i as int).map_values(|it: Item| item_text(feeds@, it)),
            ids@ == items@.take(i as int).map_values(|it: Item| it.id),
        decreases items.len() - i,
    {
        let item = &items[i];
        let mut part = "Feed: ".to_owned();
        let title = feed_title_exec(feeds, item.feed_id);
        push_str(&mut part, title.as_str());
        push_str(&mut part, "\nTitle: ");
        push_str(&mut part, item.title.as_str());
        push_str(&mut part, "\nURL: ");
        push_str(&mut part, item.url.as_str());
        push_str(&mut part, "\n\n");
        let plain = strip_html(item.html.as_str());
        push_str(&mut part, plain.as_str());
        assert(part@ =~= item_text(feeds@, *item));
        let ghost old_parts = parts@;
        parts.push(part);
        ids.push(item.id);
        i = i + 1;
        assert(parts@.map_values(|p: String| p@) =~= old_parts.map_values(|p: String| p@).push(item_text(feeds@, items@[i - 1])));
        assert(items@.take(i as int).map_values(|it: Item| item_text(feeds@, it)) =~= items@.take(i - 1).map_values(|it: Item| item_text(feeds@, it)).push(item_text(feeds@, items@[i - 1])));
        assert(parts@.map_values(|p: String| p@) =~= items@.take(i as int).map_values(|it: Item| item_text(feeds@, it)));
        assert(ids@ =~= items@.take(i as int).map_values(|it: Item| it.id));
    }
    assert(items@.take(items@.len() as int) =~= items@);
    (join_strings(&parts, "\n\n---\n\n"), ids)
}


proof fn lemma_ids_of_decimals(ids: Seq<u64>)
    ensures
        ids.len() > 0 ==> split_on(join(ids.map_values(|n: u64| decimal(n as nat)), ","@), ',')
            == ids.map_values(|n: u64| decimal(n as nat)),
    decreases ids.len(),
{
    reveal_strlit(",");
    let ds = ids.map_values(|n: u64| decimal(n as nat));
    if ids.len() == 1 {
        decimal_parses_back(ids[0]);
        lemma_split_single(ds[0], ',');
        assert(ds =~= seq![ds[0]]);
    } else if ids.len() > 1 {
        lemma_ids_of_decimals(ids.drop_last());
        assert(ds.drop_last() =~= ids.drop_last().map_values(|n: u64| decimal(n as nat)));
        decimal_parses_back(ids.last());
        assert(ds.last() == decimal(ids.last() as nat));
        lemma_split_append(join(ds.drop_last(), ","@), ',', ds.last());
        assert(","@ =~= seq![',']);
        assert(ds.drop_last().push(ds.last()) =~= ds);
    }
}

proof fn lemma_ids_of_pieces_decimals(ids: Seq<u64>)
    ensures
        ids_of_pieces(ids.map_values(|n: u64| decimal(n as nat))) == ids,
    decreases ids.len(),
{
    if ids.len() > 0 {
        lemma_ids_of_pieces_decimals(ids.drop_last());
        assert(ids.map_values(|n: u64| decimal(n as nat)).drop_last() =~= ids.drop_last().map_values(|n: u64| decimal(n as nat)));
        decimal_parses_back(ids.last());
        lemma_decimal_nonempty(ids.last());
        assert(ids.drop_last().push(ids.last()) =~= ids);
    } else {
        assert(ids =~= Seq::<u64>::empty());
    }
}

proof fn lemma_decimal_nonempty(n: u64)
    ensures
        decimal(n as nat).len() > 0,
{
}

/// Ids written as a comma-separated list are read back as the same ids, in order.
pub proof fn id_list_round_trip(ids: Seq<u64>)
    ensures
        unread_ids(join(ids.map_values(|n: u64| decimal(n as nat)), ","@)) == ids,
{
    lemma_ids_of_decimals(ids);
    lemma_ids_of_pieces_decimals(ids);
    if ids.len() == 0 {
        let j = join(ids.map_values(|n: u64| decimal(n as nat)), ","@);
        assert(j =~= Seq::<char>::empty());
        assert(split_on(j, ',') == seq![Seq::<char>::empty()]);
        assert(seq![Seq::<char>::empty()].drop_last() =~= Seq::<Seq<char>>::empty());
        assert(ids_of_pieces(Seq::<Seq<char>>::empty()) == Seq::<u64>::empty());
        assert(ids =~= Seq::<u64>::empty());
    }
}

} // verus!
