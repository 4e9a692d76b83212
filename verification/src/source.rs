//! # Source
//!
//! Holds **raw G-code text**, sanitized and split into lines, ready for the
//! [`Lexer`](crate::lexer::Lexer) to be tokenized.
//!
//! Each raw line is cut at the first comment `(`, end-of-block `;` or transmission symbol
//! `%`, trimmed, and kept only when it is non-empty and is not a deleted block (`/`). No
//! stored line holds a `(`, `;` or `%`.
use vstd::prelude::*;
use crate::text::{
    char_is_whitespace, copy_range, is_whitespace, str_chars, string_from_chars, trim, trim_bounds,
    trim_end, trim_start,
};

verus! {

/// The error of a failed read, from the standard library.
#[verifier::external_type_specification]
#[verifier::external_body]
pub struct ExIoError(std::io::Error);

/// The error of a failed UTF-8 conversion, from the standard library.
#[verifier::external_type_specification]
#[verifier::external_body]
pub struct ExUtf8Error(std::str::Utf8Error);

/// Possible errors that can happen during [`Source`] construction.
#[derive(Debug)]
pub enum SourceError {
    /// Failed to read the source from the file or `stdin`.
    IO(std::io::Error),
    /// Data received from `stdin` in not encoded in UTF-8.
    UTF(std::str::Utf8Error),
    /// No G-code source target provided.
    /// No source file path was supplied and the `stdin` is also not readable.
    StdinNotReadable,
}

/// Splits `s` at every `'\n'`; the result always has at least one part.
pub open spec fn split_lines(s: Seq<char>) -> Seq<Seq<char>>
    decreases s.len(),
{
    if s.len() == 0 {
        seq![Seq::<char>::empty()]
    } else {
        let r = split_lines(s.drop_last());
        if s.last() == '\n' {
            r.push(Seq::<char>::empty())
        } else {
            r.update(r.len() - 1, r.last().push(s.last()))
        }
    }
}

/// The characters a line is cut at: a comment start `(`, the end-of-block symbol `;`, and
/// the transmission symbol `%`.
pub open spec fn is_cut_char(c: char) -> bool {
    c == '(' || c == ';' || c == '%'
}

fn cut_char(c: char) -> (r: bool)
    ensures
        r == is_cut_char(c),
{
    c == '(' || c == ';' || c == '%'
}

/// Index of the first character the line is cut at ([`is_cut_char`]), or the length of the
/// line.
pub open spec fn cut_index(l: Seq<char>) -> int
    decreases l.len(),
{
    if l.len() == 0 {
        0
    } else if is_cut_char(l[0]) {
        0
    } else {
        1 + cut_index(l.drop_first())
    }
}

/// A raw line cut at its comment, end-of-block or transmission symbol, and trimmed.
pub open spec fn sanitize_line(l: Seq<char>) -> Seq<char> {
    trim(l.take(cut_index(l)))
}

/// Whether a sanitized line is kept: not empty, and not a deleted block.
pub open spec fn keep_line(x: Seq<char>) -> bool {
    x.len() > 0 && x[0] != '/'
}

/// The kept, sanitized lines of a sequence of raw lines, in order.
pub open spec fn sanitize_lines(ls: Seq<Seq<char>>) -> Seq<Seq<char>>
    decreases ls.len(),
{
    if ls.len() == 0 {
        Seq::empty()
    } else {
        let r = sanitize_lines(ls.drop_last());
        let x = sanitize_line(ls.last());
        if keep_line(x) {
            r.push(x)
        } else {
            r
        }
    }
}

/// A line as [`Source`] stores it: sanitizing it changes nothing, it is kept, and it holds
/// no `(`, `;` or `%`.
pub open spec fn is_sanitized(x: Seq<char>) -> bool {
    &&& sanitize_line(x) == x
    &&& keep_line(x)
    &&& forall|j: int| 0 <= j < x.len() ==> !is_cut_char(#[trigger] x[j])
}

/// Stores the data from the source file.
/// The data is sanitized, ready to be tokenized.
///
/// Also keeps track of the line to return for [`Source::next`] call.
#[derive(Clone, Debug)]
pub struct Source {
    /// Raw sanitized lines.
    lines: Vec<String>,
    /// Index of the line to return from `lines` on [`Source::next`] call.
    ///
    /// [`Source::next`] increments it and [`Source::reload`] resets it back to `0`.
    /// At some point, this may become out of bounds of `lines` which would mean
    /// that the `source` has been exhausted and needs to be `reload`ed.
    index: usize,
}

impl Source {
    /// The stored lines.
    pub closed spec fn lines(&self) -> Seq<Seq<char>> {
        self.lines@.map_values(|l: String| l@)
    }

    /// The index of the next line that [`Source::next`] returns.
    pub closed spec fn spec_index(&self) -> nat {
        self.index as nat
    }

    /// Every stored line is sanitized.
    pub open spec fn wf(&self) -> bool {
        forall|i: int| 0 <= i < self.lines().len() ==> is_sanitized(#[trigger] self.lines()[i])
    }

    /// Constructs a new [`Source`] from a provided *string slice*.
    ///
    /// See [`from_lines`](Self::from_lines) for sanitization details.
    #[allow(clippy::should_implement_trait)]
    pub fn from_str(data: &str) -> (r: Self)
        ensures
            r.lines() == sanitize_lines(split_lines(data@)),
            r.spec_index() == 0,
            r.wf(),
    {
        let chars = str_chars(data);
        let mut lines: Vec<String> = Vec::new();
        let mut start: usize = 0;
        let mut i: usize = 0;
        let ghost mut done: Seq<Seq<char>> = Seq::empty();
        proof {
            assert(chars@.take(0) =~= Seq::<char>::empty());
            assert(chars@.subrange(0, 0) =~= Seq::<char>::empty());
            assert(split_lines(Seq::<char>::empty()) == seq![Seq::<char>::empty()]);
            assert(seq![Seq::<char>::empty()] =~= done.push(chars@.subrange(0, 0)));
        }
        while i < chars.len()
            invariant
                start <= i <= chars.len(),
                chars@ == data@,
                split_lines(chars@.take(i as int)) == done.push(chars@.subrange(start as int, i as int)),
                lines@.map_values(|l: String| l@) == sanitize_lines(done),
                forall|k: int| 0 <= k < lines@.len() ==> is_sanitized(#[trigger] lines@[k]@),
            decreases chars.len() - i,
        {
            let ghost pre = chars@.take(i as int);
            proof {
                assert(chars@.take(i + 1).drop_last() =~= pre);
                assert(chars@.take(i + 1).last() == chars@[i as int]);
            }
            if chars[i] == '\n' {
                let ghost cur = chars@.subrange(start as int, i as int);
                push_sanitized(&mut lines, &chars, start, i);
                proof {
                    assert(done.push(cur).drop_last() =~= done);
                    assert(done.push(cur).last() == cur);
                    done = done.push(cur);
                    assert(chars@.subrange((i + 1) as int, (i + 1) as int) =~= Seq::<char>::empty());
                }
                start = i + 1;
            } else {
                proof {
                    let r = split_lines(pre);
                    assert(chars@.subrange(start as int, i + 1) =~= chars@.subrange(
                        start as int,
                        i as int,
                    ).push(chars@[i as int]));
                    assert(r.update(r.len() - 1, r.last().push(chars@[i as int])) =~= done.push(
                        chars@.subrange(start as int, i + 1),
                    ));
                }
            }
            i = i + 1;
        }
        let ghost cur = chars@.subrange(start as int, i as int);
        push_sanitized(&mut lines, &chars, start, i);
        proof {
            assert(chars@.take(i as int) =~= data@);
            assert(done.push(cur).drop_last() =~= done);
            assert(done.push(cur).last() == cur);
        }
        Source { lines, index: 0 }
    }

    /// Constructs a new [`Source`] from raw lines.
    ///
    /// The `Source` returned is sanitized to have **NO**:
    /// - **comments**, starting with `(`.
    /// - **deleted blocks**, starting with `/`.
    /// - **end-of-block symbol**, the `;` character.
    /// - **transmission symbol**, the `%` character.
    /// - **empty lines.**
    pub fn from_lines(raw: &[&str]) -> (r: Self)
        ensures
            r.lines() == sanitize_lines(raw@.map_values(|l: &str| l@)),
            r.spec_index() == 0,
            r.wf(),
    {
        let mut lines: Vec<String> = Vec::new();
        let mut i: usize = 0;
        let ghost all = raw@.map_values(|l: &str| l@);
        assert(all.take(0) =~= Seq::<Seq<char>>::empty());
        while i < raw.len()
            invariant
                i <= raw.len(),
                all == raw@.map_values(|l: &str| l@),
                lines@.map_values(|l: String| l@) == sanitize_lines(all.take(i as int)),
                forall|k: int| 0 <= k < lines@.len() ==> is_sanitized(#[trigger] lines@[k]@),
            decreases raw.len() - i,
        {
            let chars = str_chars(raw[i]);
            proof {
                assert(all.take(i + 1).drop_last() =~= all.take(i as int));
                assert(all.take(i + 1).last() == chars@);
                assert(chars@.subrange(0, chars@.len() as int) =~= chars@);
            }
            push_sanitized(&mut lines, &chars, 0, chars.len());
            i = i + 1;
        }
        assert(all.take(raw.len() as int) =~= all);
        Source { lines, index: 0 }
    }

    /// Resets internal pointer to point to the beginning of the source,
    /// so that subsequent calls to [`Self::next`] return lines from the beginning.
    ///
    /// **Does not** read the source file again.
    pub fn reload(&mut self)
        ensures
            final(self).lines() == old(self).lines(),
            final(self).spec_index() == 0,
    {
        self.index = 0;
    }

    /// **Optionally** returns the reference to contents of a line at provided `index`, as a `string slice`.
    pub fn get(&self, index: usize) -> (r: Option<&str>)
        ensures
            r is Some <==> index < self.lines().len(),
            r matches Some(s) ==> s@ == self.lines()[index as int],
    {
        if index < self.lines.len() {
            Some(self.lines[index].as_str())
        } else {
            None
        }
    }

    /// Returns the total number of lines in the [`Source`].
    #[allow(clippy::len_without_is_empty)]
    pub fn len(&self) -> (r: usize)
        ensures
            r == self.lines().len(),
    {
        self.lines.len()
    }

    /// Returns the internal pointer index.
    ///
    /// A subsequent call to [`Self::next`] will return the line at this index.
    pub fn index(&self) -> (r: usize)
        ensures
            r == self.spec_index(),
    {
        self.index
    }

    /// **Optionally** returns the next line as a `string slice`.
    ///
    /// **Does not** remove the returned line to support reloading the [`Source`].
    #[allow(clippy::should_implement_trait)]
    pub fn next(&mut self) -> (r: Option<&str>)
        ensures
            final(self).lines() == old(self).lines(),
            old(self).spec_index() < old(self).lines().len() ==> {
                &&& r is Some
                &&& r->0@ == old(self).lines()[old(self).spec_index() as int]
                &&& final(self).spec_index() == old(self).spec_index() + 1
            },
            old(self).spec_index() >= old(self).lines().len() ==> {
                &&& r is None
                &&& final(self).spec_index() == old(self).spec_index()
            },
            (final(self).spec_index() as nat, match r {
                Some(s) => Some(s@),
                None => None,
            }) == next_step(old(self).lines(), old(self).spec_index() as nat),
    {
        if self.index < self.lines.len() {
            let i = self.index;
            self.index = i + 1;
            Some(self.lines[i].as_str())
        } else {
            None
        }
    }
}

/// Index of the first `(`, `;` or `%` in `v[lo..hi]`, or `hi`.
fn cut_bound(v: &Vec<char>, lo: usize, hi: usize) -> (r: usize)
    requires
        lo <= hi <= v.len(),
    ensures
        lo <= r <= hi,
        r - lo == cut_index(v@.subrange(lo as int, hi as int)),
        forall|j: int| lo <= j < r ==> !is_cut_char(v@[j]),
{
    let mut k = lo;
    while k < hi && !cut_char(v[k])
        invariant
            lo <= k <= hi <= v.len(),
            forall|j: int| lo <= j < k ==> !is_cut_char(v@[j]),
        decreases hi - k,
    {
        k = k + 1;
    }
    proof {
        lemma_cut_index(v@.subrange(lo as int, hi as int), k - lo);
    }
    k
}

proof fn lemma_cut_index(l: Seq<char>, k: int)
    requires
        0 <= k <= l.len(),
        forall|j: int| 0 <= j < k ==> !is_cut_char(l[j]),
        k == l.len() || is_cut_char(l[k]),
    ensures
        cut_index(l) == k,
    decreases k,
{
    if k > 0 {
        let t = l.drop_first();
        assert forall|j: int| 0 <= j < k - 1 implies !is_cut_char(t[j]) by {
            assert(t[j] == l[j + 1]);
        }
        if k < l.len() {
            assert(t[k - 1] == l[k]);
        }
        lemma_cut_index(t, k - 1);
    }
}

/// Sanitizes the raw line `v[lo..hi]` and appends it to `lines` when it is kept.
fn push_sanitized(lines: &mut Vec<String>, v: &Vec<char>, lo: usize, hi: usize)
    requires
        lo <= hi <= v.len(),
        forall|k: int| 0 <= k < old(lines)@.len() ==> is_sanitized(#[trigger] old(lines)@[k]@),
    ensures
        ({
            let x = sanitize_line(v@.subrange(lo as int, hi as int));
            final(lines)@.map_values(|l: String| l@) == if keep_line(x) {
                old(lines)@.map_values(|l: String| l@).push(x)
            } else {
                old(lines)@.map_values(|l: String| l@)
            }
        }),
        forall|k: int| 0 <= k < final(lines)@.len() ==> is_sanitized(#[trigger] final(lines)@[k]@),
{
    let ghost raw = v@.subrange(lo as int, hi as int);
    let c = cut_bound(v, lo, hi);
    let (a, b) = trim_bounds(v, lo, c);
    proof {
        assert(raw.take(cut_index(raw)) =~= v@.subrange(lo as int, c as int));
    }
    if b > a && v[a] != '/' {
        let chars = copy_range(v, a, b);
        let s = string_from_chars(chars);
        proof {
            let x = v@.subrange(a as int, b as int);
            assert(x[0] == v@[a as int]);
            let cutted = v@.subrange(lo as int, c as int);
            assert forall|j: int| 0 <= j < cutted.len() implies !is_cut_char(cutted[j]) by {
                assert(cutted[j] == v@[lo + j]);
            }
            lemma_sanitized_fixpoint(v@.subrange(lo as int, c as int), x);
        }
        lines.push(s);
        proof {
            assert(lines@.map_values(|l: String| l@) =~= old(lines)@.map_values(|l: String| l@).push(
                s@,
            ));
        }
    } else {
        proof {
            assert(v@.subrange(a as int, b as int).len() == b - a);
        }
    }
}

/// A trimmed line without `(` or `;` is its own sanitization.
proof fn lemma_sanitized_fixpoint(cut: Seq<char>, x: Seq<char>)
    requires
        forall|j: int| 0 <= j < cut.len() ==> !is_cut_char(cut[j]),
        x == trim(cut),
    ensures
        sanitize_line(x) == x,
{
    let a = lemma_trim_within(cut);
    assert forall|j: int| 0 <= j < x.len() implies !is_cut_char(x[j]) by {
        assert(x[j] == cut[a + j]);
    }
    lemma_cut_index(x, x.len() as int);
    assert(x.take(x.len() as int) =~= x);
    lemma_trim_idempotent(cut);
}

proof fn lemma_trim_start_suffix(s: Seq<char>) -> (a: int)
    ensures
        0 <= a <= s.len(),
        trim_start(s) == s.skip(a),
        trim_start(s).len() > 0 ==> !is_whitespace(trim_start(s)[0]),
    decreases s.len(),
{
    if s.len() > 0 && is_whitespace(s[0]) {
        let a = lemma_trim_start_suffix(s.drop_first());
        assert(s.drop_first().skip(a) =~= s.skip(a + 1));
        a + 1
    } else {
        assert(s.skip(0) =~= s);
        0
    }
}

proof fn lemma_trim_end_prefix(s: Seq<char>)
    ensures
        trim_end(s) == s.take(trim_end(s).len() as int),
        trim_end(s).len() <= s.len(),
        trim_end(s).len() > 0 ==> !is_whitespace(trim_end(s).last()),
    decreases s.len(),
{
    if s.len() > 0 && is_whitespace(s.last()) {
        lemma_trim_end_prefix(s.drop_last());
        assert(s.drop_last().take(trim_end(s).len() as int) =~= s.take(trim_end(s).len() as int));
    } else {
        assert(s.take(s.len() as int) =~= s);
    }
}

proof fn lemma_trim_within(s: Seq<char>) -> (a: int)
    ensures
        0 <= a,
        a + trim(s).len() <= s.len(),
        trim(s) == s.subrange(a, a + trim(s).len()),
{
    let a = lemma_trim_start_suffix(s);
    lemma_trim_end_prefix(trim_start(s));
    let n = trim(s).len();
    assert(trim(s) =~= s.subrange(a, a + n));
    a
}

/// Trimming twice is trimming once.
pub proof fn lemma_trim_idempotent(s: Seq<char>)
    ensures
        trim(trim(s)) == trim(s),
{
    let t = trim(s);
    let _ = lemma_trim_start_suffix(s);
    lemma_trim_end_prefix(trim_start(s));
    if t.len() > 0 {
        assert(t[0] == trim_start(s)[0]);
        assert(!is_whitespace(t[0]));
        assert(trim_start(t) == t);
        assert(!is_whitespace(t.last()));
    } else {
        assert(trim_start(t) == t);
    }
}

proof fn lemma_cut_index_prefix(l: Seq<char>)
    ensures
        0 <= cut_index(l) <= l.len(),
        forall|j: int| 0 <= j < cut_index(l) ==> !is_cut_char(l[j]),
    decreases l.len(),
{
    if l.len() > 0 && !is_cut_char(l[0]) {
        let t = l.drop_first();
        lemma_cut_index_prefix(t);
        assert forall|j: int| 0 <= j < cut_index(l) implies !is_cut_char(l[j]) by {
            if j > 0 {
                assert(l[j] == t[j - 1]);
            }
        }
    }
}

/// A kept line is a sanitized line.
proof fn lemma_sanitize_line_sanitized(l: Seq<char>)
    ensures
        keep_line(sanitize_line(l)) ==> is_sanitized(sanitize_line(l)),
{
    lemma_cut_index_prefix(l);
    let cut = l.take(cut_index(l));
    assert forall|j: int| 0 <= j < cut.len() implies !is_cut_char(cut[j]) by {
        assert(cut[j] == l[j]);
    }
    lemma_sanitized_fixpoint(cut, sanitize_line(l));
    let x = sanitize_line(l);
    let a = lemma_trim_within(cut);
    assert forall|j: int| 0 <= j < x.len() implies !is_cut_char(#[trigger] x[j]) by {
        assert(x[j] == cut[a + j]);
    }
}

/// Every line that sanitizing keeps is sanitized.
proof fn lemma_sanitize_lines_sanitized(ls: Seq<Seq<char>>)
    ensures
        forall|i: int|
            0 <= i < sanitize_lines(ls).len() ==> is_sanitized(#[trigger] sanitize_lines(ls)[i]),
    decreases ls.len(),
{
    if ls.len() > 0 {
        let r = sanitize_lines(ls.drop_last());
        lemma_sanitize_lines_sanitized(ls.drop_last());
        lemma_sanitize_line_sanitized(ls.last());
        let x = sanitize_line(ls.last());
        if keep_line(x) {
            assert forall|i: int| 0 <= i < r.push(x).len() implies is_sanitized(
                #[trigger] r.push(x)[i],
            ) by {
                if i < r.len() {
                    assert(r.push(x)[i] == r[i]);
                }
            }
        }
    }
}

/// Sanitized lines are sanitized again into themselves.
proof fn lemma_sanitize_lines_fixpoint(xs: Seq<Seq<char>>)
    requires
        forall|i: int| 0 <= i < xs.len() ==> is_sanitized(#[trigger] xs[i]),
    ensures
        sanitize_lines(xs) == xs,
    decreases xs.len(),
{
    if xs.len() > 0 {
        let ys = xs.drop_last();
        assert forall|i: int| 0 <= i < ys.len() implies is_sanitized(#[trigger] ys[i]) by {
            assert(ys[i] == xs[i]);
        }
        lemma_sanitize_lines_fixpoint(ys);
        assert(is_sanitized(xs[xs.len() - 1]));
        assert(ys.push(xs.last()) =~= xs);
    }
}

/// Sanitizing is idempotent: the lines of a [`Source`], read again as raw lines, give the
/// same lines.
pub proof fn lemma_sanitize_lines_idempotent(ls: Seq<Seq<char>>)
    ensures
        sanitize_lines(sanitize_lines(ls)) == sanitize_lines(ls),
{
    lemma_sanitize_lines_sanitized(ls);
    lemma_sanitize_lines_fixpoint(sanitize_lines(ls));
}

/// One call of [`Source::next`] on lines `lines` with index `i`: the index after the call,
/// and the line handed out.
pub open spec fn next_step(lines: Seq<Seq<char>>, i: nat) -> (nat, Option<Seq<char>>) {
    if i < lines.len() {
        (i + 1, Some(lines[i as int]))
    } else {
        (i, None)
    }
}

/// The lines that repeated calls of [`Source::next`] hand out from the index `i` on, until
/// the first `None`.
pub open spec fn reads_to_end(lines: Seq<Seq<char>>, i: nat) -> Seq<Seq<char>>
    decreases lines.len() - i,
{
    let (j, r) = next_step(lines, i);
    match r {
        Some(line) => if i < j <= lines.len() {
            seq![line] + reads_to_end(lines, j)
        } else {
            Seq::empty()
        },
        None => Seq::empty(),
    }
}

/// Reading a source to its end from the index `i` gives its lines from `i` on, in order.
pub proof fn lemma_reads_to_end(lines: Seq<Seq<char>>, i: nat)
    requires
        i <= lines.len(),
    ensures
        reads_to_end(lines, i) == lines.skip(i as int),
    decreases lines.len() - i,
{
    if i < lines.len() {
        lemma_reads_to_end(lines, i + 1);
        assert(seq![lines[i as int]] + lines.skip((i + 1) as int) =~= lines.skip(i as int));
    } else {
        assert(lines.skip(i as int) =~= Seq::<Seq<char>>::empty());
    }
}

/// After [`Source::reload`], which keeps the lines and sets the index to `0`, repeated calls
/// of [`Source::next`] hand out every line of the source in order, the same lines as the
/// first pass, and then `None` on every further call, the index staying at the end.
pub proof fn lemma_reload_reads_all(lines: Seq<Seq<char>>)
    ensures
        reads_to_end(lines, 0) == lines,
        next_step(lines, lines.len()) == (lines.len(), None::<Seq<char>>),
{
    lemma_reads_to_end(lines, 0);
    assert(lines.skip(0) =~= lines);
}

} // verus!
