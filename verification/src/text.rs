//! Line-level text rules for the report: carriage-return stripping, bullet
//! normalization, trimming, code-fence substitutions, line splitting and
//! substring search.
use vstd::prelude::*;
use vstd::string::*;

verus! {

/// Characters with the Unicode `White_Space` property: the set that
/// `str::trim` removes from either end of a string.
pub open spec fn is_space_char(c: char) -> bool {
    c == ' ' || c == '\t' || c == '\n' || c == '\u{b}' || c == '\u{c}' || c == '\r'
        || c == '\u{85}' || c == '\u{a0}' || c == '\u{1680}' || c == '\u{2000}' || c == '\u{2001}'
        || c == '\u{2002}' || c == '\u{2003}' || c == '\u{2004}' || c == '\u{2005}'
        || c == '\u{2006}' || c == '\u{2007}' || c == '\u{2008}' || c == '\u{2009}'
        || c == '\u{200a}' || c == '\u{2028}' || c == '\u{2029}' || c == '\u{202f}'
        || c == '\u{205f}' || c == '\u{3000}'
}

fn is_space(c: char) -> (r: bool)
    ensures
        r == is_space_char(c),
{
    c == ' ' || c == '\t' || c == '\n' || c == '\u{b}' || c == '\u{c}' || c == '\r'
        || c == '\u{85}' || c == '\u{a0}' || c == '\u{1680}' || c == '\u{2000}' || c == '\u{2001}'
        || c == '\u{2002}' || c == '\u{2003}' || c == '\u{2004}' || c == '\u{2005}'
        || c == '\u{2006}' || c == '\u{2007}' || c == '\u{2008}' || c == '\u{2009}'
        || c == '\u{200a}' || c == '\u{2028}' || c == '\u{2029}' || c == '\u{202f}'
        || c == '\u{205f}' || c == '\u{3000}'
}

/// The characters of a string, one per element.
fn chars_of(s: &str) -> (r: Vec<char>)
    ensures
        r@ == s@,
{
    let n: usize = s.unicode_len();
    let mut r: Vec<char> = Vec::new();
    let mut i: usize = 0;
    while i < n
        invariant
            n == s@.len(),
            i <= n,
            r@ == s@.take(i as int),
        decreases n - i,
    {
        let c = s.get_char(i);
        r.push(c);
        i = i + 1;
        proof {
            assert(r@ =~= s@.take(i as int));
        }
    }
    proof {
        assert(r@ =~= s@);
    }
    r
}

/// Relies on `core::iter::Iterator::collect` for `String`: collecting
/// characters yields the string made of exactly those characters, in order.
#[verifier::external_body]
fn string_of(cs: Vec<char>) -> (r: String)
    ensures
        r@ == cs@,
{
    cs.into_iter().collect()
}

/// All carriage returns removed, the first of the report's line rules.
pub open spec fn strip_cr(s: Seq<char>) -> Seq<char>
    decreases s.len(),
{
    if s.len() == 0 {
        Seq::empty()
    } else if s[0] == '\r' {
        strip_cr(s.drop_first())
    } else {
        seq![s[0]] + strip_cr(s.drop_first())
    }
}

/// Leading bullet markers rewritten, left to right without overlap:
/// each `* ` becomes `- `.
pub open spec fn subst_bullets(s: Seq<char>) -> Seq<char>
    decreases s.len(),
{
    if s.len() >= 2 && s[0] == '*' && s[1] == ' ' {
        seq!['-', ' '] + subst_bullets(s.skip(2))
    } else if s.len() > 0 {
        seq![s[0]] + subst_bullets(s.drop_first())
    } else {
        Seq::empty()
    }
}

/// The two line rules shared by every rendered text line: carriage returns
/// stripped, then bullet markers normalized.
pub open spec fn scrub(s: Seq<char>) -> Seq<char> {
    subst_bullets(strip_cr(s))
}

fn strip_cr_vec(s: &Vec<char>) -> (r: Vec<char>)
    ensures
        r@ == strip_cr(s@),
{
    let mut r: Vec<char> = Vec::new();
    let mut i: usize = 0;
    proof {
        assert(s@.skip(0) =~= s@);
        assert(Seq::<char>::empty() + strip_cr(s@) =~= strip_cr(s@));
    }
    while i < s.len()
        invariant
            i <= s@.len(),
            strip_cr(s@) == r@ + strip_cr(s@.skip(i as int)),
        decreases s@.len() - i,
    {
        let c = s[i];
        proof {
            assert(s@.skip(i as int)[0] == s@[i as int]);
            assert(s@.skip(i as int).drop_first() =~= s@.skip(i as int + 1));
        }
        if c != '\r' {
            r.push(c);
            proof {
                assert(seq![c] + strip_cr(s@.skip(i as int + 1)) == strip_cr(s@.skip(i as int)));
            }
        }
        i = i + 1;
    }
    proof {
        assert(s@.skip(s@.len() as int) =~= Seq::<char>::empty());
        assert(r@ + Seq::<char>::empty() =~= r@);
    }
    r
}

fn subst_bullets_vec(s: &Vec<char>) -> (r: Vec<char>)
    ensures
        r@ == subst_bullets(s@),
{
    let mut r: Vec<char> = Vec::new();
    let mut i: usize = 0;
    proof {
        assert(s@.skip(0) =~= s@);
        assert(Seq::<char>::empty() + subst_bullets(s@) =~= subst_bullets(s@));
    }
    while i < s.len()
        invariant
            i <= s@.len(),
            subst_bullets(s@) == r@ + subst_bullets(s@.skip(i as int)),
        decreases s@.len() - i,
    {
        proof {
            assert(s@.skip(i as int)[0] == s@[i as int]);
            if i + 1 < s@.len() {
                assert(s@.skip(i as int)[1] == s@[i as int + 1]);
                assert(s@.skip(i as int).skip(2) =~= s@.skip(i as int + 2));
            }
            assert(s@.skip(i as int).drop_first() =~= s@.skip(i as int + 1));
        }
        if i + 1 < s.len() && s[i] == '*' && s[i + 1] == ' ' {
            r.push('-');
            r.push(' ');
            proof {
                assert(seq!['-', ' '] + subst_bullets(s@.skip(i as int + 2))
                    == subst_bullets(s@.skip(i as int)));
                assert((r@ + subst_bullets(s@.skip(i as int + 2)))
                    =~= (r@.drop_last().drop_last() + subst_bullets(s@.skip(i as int))));
            }
            i = i + 2;
        } else {
            let c = s[i];
            r.push(c);
            proof {
                assert(seq![c] + subst_bullets(s@.skip(i as int + 1))
                    == subst_bullets(s@.skip(i as int)));
                assert((r@ + subst_bullets(s@.skip(i as int + 1)))
                    =~= (r@.drop_last() + subst_bullets(s@.skip(i as int))));
            }
            i = i + 1;
        }
    }
    proof {
        assert(s@.skip(s@.len() as int) =~= Seq::<char>::empty());
        assert(r@ + Seq::<char>::empty() =~= r@);
    }
    r
}

/// Carriage returns stripped and bullet markers normalized, as one pass over
/// a line of text.
pub fn scrub_line(line: &str) -> (r: String)
    ensures
        r@ == scrub(line@),
{
    let cs = chars_of(line);
    let stripped = strip_cr_vec(&cs);
    let subst = subst_bullets_vec(&stripped);
    string_of(subst)
}

/// No carriage return anywhere in the text.
pub open spec fn no_cr(s: Seq<char>) -> bool {
    forall|i: int| 0 <= i < s.len() ==> s[i] != '\r'
}

/// No bullet marker `* ` anywhere in the text.
pub open spec fn no_bullet(s: Seq<char>) -> bool {
    forall|i: int| 0 <= i && i + 1 < s.len() ==> !(#[trigger] s[i] == '*' && s[i + 1] == ' ')
}

proof fn lemma_strip_cr_clean(s: Seq<char>)
    ensures
        no_cr(strip_cr(s)),
    decreases s.len(),
{
    if s.len() == 0 {
    } else if s[0] == '\r' {
        lemma_strip_cr_clean(s.drop_first());
    } else {
        lemma_strip_cr_clean(s.drop_first());
        let r = strip_cr(s);
        assert forall|i: int| 0 <= i < r.len() implies r[i] != '\r' by {
            if i > 0 {
                assert(r[i] == strip_cr(s.drop_first())[i - 1]);
            }
        }
    }
}

proof fn lemma_strip_cr_noop(s: Seq<char>)
    requires
        no_cr(s),
    ensures
        strip_cr(s) == s,
    decreases s.len(),
{
    if s.len() == 0 {
        assert(strip_cr(s) =~= s);
    } else {
        assert forall|i: int| 0 <= i < s.drop_first().len() implies s.drop_first()[i] != '\r' by {
            assert(s.drop_first()[i] == s[i + 1]);
        }
        lemma_strip_cr_noop(s.drop_first());
        assert(seq![s[0]] + s.drop_first() =~= s);
    }
}

proof fn lemma_subst_keeps_no_cr(s: Seq<char>)
    requires
        no_cr(s),
    ensures
        no_cr(subst_bullets(s)),
    decreases s.len(),
{
    let r = subst_bullets(s);
    if s.len() >= 2 && s[0] == '*' && s[1] == ' ' {
        assert forall|i: int| 0 <= i < s.skip(2).len() implies s.skip(2)[i] != '\r' by {
            assert(s.skip(2)[i] == s[i + 2]);
        }
        lemma_subst_keeps_no_cr(s.skip(2));
        assert forall|i: int| 0 <= i < r.len() implies r[i] != '\r' by {
            if i >= 2 {
                assert(r[i] == subst_bullets(s.skip(2))[i - 2]);
            }
        }
    } else if s.len() > 0 {
        assert forall|i: int| 0 <= i < s.drop_first().len() implies s.drop_first()[i] != '\r' by {
            assert(s.drop_first()[i] == s[i + 1]);
        }
        lemma_subst_keeps_no_cr(s.drop_first());
        assert forall|i: int| 0 <= i < r.len() implies r[i] != '\r' by {
            if i > 0 {
                assert(r[i] == subst_bullets(s.drop_first())[i - 1]);
            }
        }
    }
}

proof fn lemma_subst_head(s: Seq<char>)
    requires
        s.len() > 0,
    ensures
        subst_bullets(s).len() > 0,
        s[0] != ' ' ==> subst_bullets(s)[0] != ' ',
{
    if s.len() >= 2 && s[0] == '*' && s[1] == ' ' {
        assert(subst_bullets(s)[0] == '-');
    } else {
        assert(subst_bullets(s)[0] == s[0]);
    }
}

proof fn lemma_subst_no_bullet(s: Seq<char>)
    ensures
        no_bullet(subst_bullets(s)),
    decreases s.len(),
{
    let r = subst_bullets(s);
    if s.len() >= 2 && s[0] == '*' && s[1] == ' ' {
        lemma_subst_no_bullet(s.skip(2));
        let rr = subst_bullets(s.skip(2));
        assert forall|i: int| 0 <= i && i + 1 < r.len() implies !(#[trigger] r[i] == '*' && r[i
            + 1] == ' ') by {
            if i == 0 {
                assert(r[0] == '-');
            } else if i == 1 {
                assert(r[1] == ' ');
            } else {
                assert(r[i] == rr[i - 2]);
                assert(r[i + 1] == rr[i - 1]);
            }
        }
    } else if s.len() > 0 {
        lemma_subst_no_bullet(s.drop_first());
        let rr = subst_bullets(s.drop_first());
        assert forall|i: int| 0 <= i && i + 1 < r.len() implies !(#[trigger] r[i] == '*' && r[i
            + 1] == ' ') by {
            if i == 0 {
                assert(r[0] == s[0]);
                if s[0] == '*' {
                    assert(s.len() >= 2);
                    assert(s[1] != ' ');
                    assert(s.drop_first().len() > 0);
                    assert(s.drop_first()[0] == s[1]);
                    lemma_subst_head(s.drop_first());
                    assert(r[1] == rr[0]);
                }
            } else {
                assert(r[i] == rr[i - 1]);
                assert(r[i + 1] == rr[i]);
            }
        }
    }
}

proof fn lemma_subst_noop(s: Seq<char>)
    requires
        no_bullet(s),
    ensures
        subst_bullets(s) == s,
    decreases s.len(),
{
    if s.len() == 0 {
        assert(subst_bullets(s) =~= s);
    } else {
        if s.len() >= 2 {
            assert(!(s[0] == '*' && s[1] == ' '));
        }
        assert forall|i: int|
            0 <= i && i + 1 < s.drop_first().len() implies !(#[trigger] s.drop_first()[i] == '*'
            && s.drop_first()[i + 1] == ' ') by {
            assert(s.drop_first()[i] == s[i + 1]);
            assert(s.drop_first()[i + 1] == s[i + 2]);
        }
        lemma_subst_noop(s.drop_first());
        assert(seq![s[0]] + s.drop_first() =~= s);
    }
}

/// Law: the line rules are idempotent. Stripping carriage returns and
/// rewriting bullet markers a second time leaves a line exactly as one
/// application left it.
pub proof fn lemma_scrub_idempotent(s: Seq<char>)
    ensures
        scrub(scrub(s)) == scrub(s),
{
    lemma_strip_cr_clean(s);
    lemma_subst_keeps_no_cr(strip_cr(s));
    lemma_strip_cr_noop(scrub(s));
    lemma_subst_no_bullet(strip_cr(s));
    lemma_subst_noop(scrub(s));
}

/// Leading whitespace removed.
pub open spec fn trim_start(s: Seq<char>) -> Seq<char>
    decreases s.len(),
{
    if s.len() > 0 && is_space_char(s[0]) {
        trim_start(s.drop_first())
    } else {
        s
    }
}

/// Trailing whitespace removed.
pub open spec fn trim_end(s: Seq<char>) -> Seq<char>
    decreases s.len(),
{
    if s.len() > 0 && is_space_char(s.last()) {
        trim_end(s.drop_last())
    } else {
        s
    }
}

/// Leading and trailing whitespace removed, as `str::trim` leaves a string.
pub open spec fn trim(s: Seq<char>) -> Seq<char> {
    trim_end(trim_start(s))
}

proof fn lemma_trim_start_skip(s: Seq<char>, i: int)
    requires
        0 <= i <= s.len(),
        forall|j: int| 0 <= j < i ==> is_space_char(s[j]),
    ensures
        trim_start(s) == trim_start(s.skip(i)),
    decreases i,
{
    if i == 0 {
        assert(s.skip(0) =~= s);
    } else {
        assert(is_space_char(s[0]));
        lemma_trim_start_skip(s.drop_first(), i - 1);
        assert(s.drop_first().skip(i - 1) =~= s.skip(i));
    }
}

proof fn lemma_trim_end_take(t: Seq<char>, k: int)
    requires
        0 <= k <= t.len(),
        forall|j: int| k <= j < t.len() ==> is_space_char(t[j]),
    ensures
        trim_end(t) == trim_end(t.take(k)),
    decreases t.len() - k,
{
    if k == t.len() {
        assert(t.take(k) =~= t);
    } else {
        lemma_trim_end_take(t, k + 1);
        assert(t.take(k + 1).last() == t[k]);
        assert(is_space_char(t.take(k + 1).last()));
        assert(t.take(k + 1).drop_last() =~= t.take(k));
    }
}

fn trim_vec(s: &Vec<char>) -> (r: Vec<char>)
    ensures
        r@ == trim(s@),
{
    let n: usize = s.len();
    let mut lo: usize = 0;
    while lo < n && is_space(s[lo])
        invariant
            n == s@.len(),
            lo <= n,
            forall|j: int| 0 <= j < lo ==> is_space_char(s@[j]),
        decreases n - lo,
    {
        lo = lo + 1;
    }
    proof {
        lemma_trim_start_skip(s@, lo as int);
        if lo < n {
            assert(s@.skip(lo as int)[0] == s@[lo as int]);
        } else {
            assert(s@.skip(lo as int) =~= Seq::<char>::empty());
        }
        assert(trim_start(s@) == s@.skip(lo as int));
    }
    let ghost t = s@.skip(lo as int);
    let mut hi: usize = n;
    while hi > lo && is_space(s[hi - 1])
        invariant
            n == s@.len(),
            lo <= hi <= n,
            forall|j: int| hi <= j < n ==> is_space_char(s@[j]),
        decreases hi,
    {
        hi = hi - 1;
    }
    proof {
        assert forall|j: int| hi - lo <= j < t.len() implies is_space_char(t[j]) by {
            assert(t[j] == s@[lo + j]);
        }
        lemma_trim_end_take(t, hi - lo);
        assert(t.take(hi - lo) =~= s@.subrange(lo as int, hi as int));
        if hi > lo {
            assert(t.take(hi - lo).last() == s@[hi - 1]);
        } else {
            assert(t.take(0) =~= Seq::<char>::empty());
        }
        assert(trim_end(t) == s@.subrange(lo as int, hi as int));
    }
    let sl = vstd::slice::slice_subrange(s.as_slice(), lo, hi);
    vstd::slice::slice_to_vec(sl)
}

/// The full normalization of a description line: carriage returns stripped,
/// bullet markers rewritten, the result trimmed.
pub open spec fn norm_line(s: Seq<char>) -> Seq<char> {
    trim(scrub(s))
}

/// Normalizes one line of issue text for the report.
pub fn normalize_line(line: &str) -> (r: String)
    ensures
        r@ == norm_line(line@),
{
    let cs = chars_of(line);
    let stripped = strip_cr_vec(&cs);
    let subst = subst_bullets_vec(&stripped);
    let trimmed_cs = trim_vec(&subst);
    string_of(trimmed_cs)
}

/// Trims a whole string, as the renderer does for summaries and status names
/// and the issue client does for bearer tokens.
pub fn trimmed(s: &str) -> (r: String)
    ensures
        r@ == trim(s@),
{
    let cs = chars_of(s);
    let t = trim_vec(&cs);
    string_of(t)
}

/// Every occurrence of `pat`, scanned left to right without overlap,
/// replaced by `rep`.
pub open spec fn subst_marker(s: Seq<char>, pat: Seq<char>, rep: Seq<char>) -> Seq<char>
    decreases s.len(),
    when pat.len() > 0
{
    if s.len() >= pat.len() && s.subrange(0, pat.len() as int) == pat {
        rep + subst_marker(s.skip(pat.len() as int), pat, rep)
    } else if s.len() > 0 {
        seq![s[0]] + subst_marker(s.drop_first(), pat, rep)
    } else {
        Seq::empty()
    }
}

fn matches_at(s: &Vec<char>, i: usize, pat: &Vec<char>) -> (r: bool)
    requires
        i <= s@.len(),
    ensures
        r == (i + pat@.len() <= s@.len() && s@.subrange(i as int, i as int + pat@.len() as int)
            == pat@),
{
    if pat.len() > s.len() - i {
        return false;
    }
    let n: usize = s.len();
    let mut j: usize = 0;
    while j < pat.len()
        invariant
            n == s@.len(),
            i + pat@.len() <= s@.len(),
            j <= pat@.len(),
            forall|k: int| 0 <= k < j ==> s@[i + k] == pat@[k],
        decreases pat@.len() - j,
    {
        proof {
            assert(i + j < s@.len());
        }
        if s[i + j] != pat[j] {
            proof {
                assert(s@.subrange(i as int, i as int + pat@.len() as int)[j as int] == s@[i + j]);
            }
            return false;
        }
        j = j + 1;
    }
    proof {
        assert(s@.subrange(i as int, i as int + pat@.len() as int) =~= pat@);
    }
    true
}

fn push_all(out: &mut Vec<char>, xs: &Vec<char>)
    ensures
        final(out)@ == old(out)@ + xs@,
{
    let mut j: usize = 0;
    while j < xs.len()
        invariant
            j <= xs@.len(),
            out@ == old(out)@ + xs@.take(j as int),
        decreases xs@.len() - j,
    {
        let c = xs[j];
        out.push(c);
        j = j + 1;
        proof {
            assert(old(out)@ + xs@.take(j as int) =~= (old(out)@ + xs@.take(j - 1)).push(
                xs@[j - 1],
            ));
        }
    }
    proof {
        assert(old(out)@ + xs@.take(xs@.len() as int) =~= old(out)@ + xs@);
    }
}

fn subst_marker_vec(s: &Vec<char>, pat: &Vec<char>, rep: &Vec<char>) -> (r: Vec<char>)
    requires
        pat@.len() > 0,
    ensures
        r@ == subst_marker(s@, pat@, rep@),
{
    let mut r: Vec<char> = Vec::new();
    let mut i: usize = 0;
    proof {
        assert(s@.skip(0) =~= s@);
        assert(Seq::<char>::empty() + subst_marker(s@, pat@, rep@) =~= subst_marker(
            s@,
            pat@,
            rep@,
        ));
    }
    while i < s.len()
        invariant
            pat@.len() > 0,
            i <= s@.len(),
            subst_marker(s@, pat@, rep@) == r@ + subst_marker(s@.skip(i as int), pat@, rep@),
        decreases s@.len() - i,
    {
        proof {
            if i + pat@.len() <= s@.len() {
                assert(s@.skip(i as int).subrange(0, pat@.len() as int) =~= s@.subrange(
                    i as int,
                    i as int + pat@.len() as int,
                ));
                assert(s@.skip(i as int).skip(pat@.len() as int) =~= s@.skip(
                    i as int + pat@.len(),
                ));
            }
            assert(s@.skip(i as int)[0] == s@[i as int]);
            assert(s@.skip(i as int).drop_first() =~= s@.skip(i as int + 1));
        }
        if matches_at(s, i, pat) {
            let ghost r0 = r@;
            push_all(&mut r, rep);
            proof {
                assert(subst_marker(s@.skip(i as int), pat@, rep@) == rep@ + subst_marker(
                    s@.skip(i as int + pat@.len()),
                    pat@,
                    rep@,
                ));
                assert((r0 + rep@) + subst_marker(s@.skip(i as int + pat@.len()), pat@, rep@)
                    =~= r0 + subst_marker(s@.skip(i as int), pat@, rep@));
            }
            i = i + pat.len();
        } else {
            let c = s[i];
            let ghost r0 = r@;
            r.push(c);
            proof {
                assert(subst_marker(s@.skip(i as int), pat@, rep@) == seq![c] + subst_marker(
                    s@.skip(i as int + 1),
                    pat@,
                    rep@,
                ));
                assert(r@ + subst_marker(s@.skip(i as int + 1), pat@, rep@) =~= r0 + subst_marker(
                    s@.skip(i as int),
                    pat@,
                    rep@,
                ));
            }
            i = i + 1;
        }
    }
    proof {
        assert(s@.skip(s@.len() as int) =~= Seq::<char>::empty());
        assert(r@ + Seq::<char>::empty() =~= r@);
    }
    r
}

/// The issue tracker's opening code marker.
pub open spec fn code_open_marker() -> Seq<char> {
    seq!['{', 'c', 'o', 'd', 'e', ':', 'j', 'a', 'v', 'a', '}']
}

/// The fenced-code-block opener, tagged `bash`, that replaces it.
pub open spec fn bash_fence() -> Seq<char> {
    seq!['`', '`', '`', 'b', 'a', 's', 'h']
}

/// The issue tracker's closing code marker.
pub open spec fn code_close_marker() -> Seq<char> {
    seq!['{', 'c', 'o', 'd', 'e', '}']
}

/// The plain fenced-code-block closer that replaces it.
pub open spec fn plain_fence() -> Seq<char> {
    seq!['`', '`', '`']
}

/// The rule for one line of a comment body: carriage returns stripped,
/// bullet markers rewritten, then the code markers replaced by fences.
pub open spec fn body_line_subst(s: Seq<char>) -> Seq<char> {
    subst_marker(
        subst_marker(scrub(s), code_open_marker(), bash_fence()),
        code_close_marker(),
        plain_fence(),
    )
}

/// Applies the comment-body line rule.
pub fn body_line(line: &str) -> (r: String)
    ensures
        r@ == body_line_subst(line@),
{
    let cs = chars_of(line);
    let stripped = strip_cr_vec(&cs);
    let subst = subst_bullets_vec(&stripped);
    let open_pat = chars_of("{code:java}");
    let open_rep = chars_of("```bash");
    let close_pat = chars_of("{code}");
    let close_rep = chars_of("```");
    proof {
        reveal_strlit("{code:java}");
        reveal_strlit("```bash");
        reveal_strlit("{code}");
        reveal_strlit("```");
        assert(open_pat@ =~= code_open_marker());
        assert(open_rep@ =~= bash_fence());
        assert(close_pat@ =~= code_close_marker());
        assert(close_rep@ =~= plain_fence());
    }
    let opened = subst_marker_vec(&subst, &open_pat, &open_rep);
    let closed = subst_marker_vec(&opened, &close_pat, &close_rep);
    string_of(closed)
}

/// Whether `needle` occurs anywhere in `hay`.
pub open spec fn contains_marker(hay: Seq<char>, needle: Seq<char>) -> bool {
    exists|i: int|
        0 <= i && i + needle.len() <= hay.len() && #[trigger] hay.subrange(i, i + needle.len())
            == needle
}

/// Case-sensitive substring test, as `str::contains` answers it.
pub fn contains_substr(hay: &str, needle: &str) -> (r: bool)
    ensures
        r == contains_marker(hay@, needle@),
{
    let h = chars_of(hay);
    let n = chars_of(needle);
    let mut i: usize = 0;
    loop
        invariant
            h@ == hay@,
            n@ == needle@,
            i <= h@.len(),
            forall|j: int|
                0 <= j < i ==> !(j + n@.len() <= h@.len() && #[trigger] h@.subrange(
                    j,
                    j + n@.len(),
                ) == n@),
        decreases h@.len() - i,
    {
        if matches_at(&h, i, &n) {
            proof {
                assert(0 <= i as int && i as int + needle@.len() <= hay@.len() && hay@.subrange(
                    i as int,
                    i as int + needle@.len(),
                ) == needle@);
            }
            return true;
        }
        if i == h.len() {
            return false;
        }
        i = i + 1;
    }
}

/// The segments of a text between newline characters, as splitting on `'\n'`
/// yields them: always at least one segment, one more per newline.
pub open spec fn split_lines(s: Seq<char>) -> Seq<Seq<char>>
    decreases s.len(),
{
    if s.len() == 0 {
        seq![Seq::<char>::empty()]
    } else if s[0] == '\n' {
        seq![Seq::<char>::empty()] + split_lines(s.drop_first())
    } else {
        seq![seq![s[0]] + split_lines(s.drop_first())[0]] + split_lines(s.drop_first()).skip(1)
    }
}

proof fn lemma_split_lines_nonempty(s: Seq<char>)
    ensures
        split_lines(s).len() >= 1,
    decreases s.len(),
{
    if s.len() > 0 {
        lemma_split_lines_nonempty(s.drop_first());
    }
}

spec fn prepend_first(c: Seq<char>, ls: Seq<Seq<char>>) -> Seq<Seq<char>> {
    seq![c + ls[0]] + ls.skip(1)
}

fn split_lines_vec(s: &Vec<char>) -> (r: Vec<Vec<char>>)
    ensures
        r.deep_view() == split_lines(s@),
{
    let mut done: Vec<Vec<char>> = Vec::new();
    let mut cur: Vec<char> = Vec::new();
    let mut i: usize = 0;
    proof {
        assert(s@.skip(0) =~= s@);
        lemma_split_lines_nonempty(s@);
        assert(prepend_first(cur@, split_lines(s@)) =~~= split_lines(s@));
        assert(done.deep_view() + prepend_first(cur@, split_lines(s@.skip(0))) =~~= split_lines(
            s@,
        ));
    }
    while i < s.len()
        invariant
            i <= s@.len(),
            done.deep_view() + prepend_first(cur@, split_lines(s@.skip(i as int))) == split_lines(
                s@,
            ),
        decreases s@.len() - i,
    {
        let ghost rest = split_lines(s@.skip(i as int + 1));
        proof {
            assert(s@.skip(i as int)[0] == s@[i as int]);
            assert(s@.skip(i as int).drop_first() =~= s@.skip(i as int + 1));
            lemma_split_lines_nonempty(s@.skip(i as int + 1));
        }
        let c = s[i];
        if c == '\n' {
            let ghost cur0 = cur@;
            let ghost done0 = done.deep_view();
            done.push(cur);
            cur = Vec::new();
            proof {
                assert(split_lines(s@.skip(i as int)) == seq![Seq::<char>::empty()] + rest);
                assert(prepend_first(cur0, seq![Seq::<char>::empty()] + rest) =~~= seq![cur0]
                    + rest);
                assert(done.deep_view() =~~= done0.push(cur0));
                assert(prepend_first(cur@, rest) =~~= rest);
                assert(done0.push(cur0) + rest =~~= done0 + (seq![cur0] + rest));
            }
        } else {
            proof {
                assert(split_lines(s@.skip(i as int)) == prepend_first(seq![c], rest));
                assert(prepend_first(cur@.push(c), rest) =~~= prepend_first(
                    cur@,
                    prepend_first(seq![c], rest),
                ));
            }
            cur.push(c);
        }
        i = i + 1;
    }
    proof {
        assert(s@.skip(s@.len() as int) =~= Seq::<char>::empty());
        assert(prepend_first(cur@, split_lines(Seq::<char>::empty())) =~~= seq![cur@]);
    }
    let ghost done0 = done.deep_view();
    let ghost last = cur@;
    done.push(cur);
    proof {
        assert(done.deep_view() =~~= done0.push(last));
        assert(done0.push(last) =~~= done0 + seq![last]);
    }
    done
}

/// Splits a text into its lines.
pub fn split_into_lines(text: &str) -> (r: Vec<String>)
    ensures
        r.deep_view() == split_lines(text@),
{
    let cs = chars_of(text);
    let mut parts = split_lines_vec(&cs);
    let mut r: Vec<String> = Vec::new();
    proof {
        assert(r.deep_view() + parts.deep_view() =~~= parts.deep_view());
    }
    while parts.len() > 0
        invariant
            r.deep_view() + parts.deep_view() == split_lines(text@),
        decreases parts.len(),
    {
        let ghost r0 = r.deep_view();
        let ghost parts0 = parts.deep_view();
        let p = parts.remove(0);
        let line = string_of(p);
        r.push(line);
        proof {
            assert(r.deep_view() =~~= r0.push(parts0[0]));
            assert(parts.deep_view() =~~= parts0.drop_first());
            assert(r0.push(parts0[0]) + parts0.drop_first() =~~= r0 + parts0);
        }
    }
    proof {
        assert(r.deep_view() + parts.deep_view() =~~= r.deep_view());
    }
    r
}

} // verus!

