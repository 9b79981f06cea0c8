//! Tiny GLSL-style `#ifdef` / `#ifndef` / `#endif` preprocessor for WGSL.
//!
//! WGSL has no native preprocessor. One source file carries `#ifdef`-gated
//! branches; a stripping pass with a known feature set yields the variant that
//! is compiled.
//!
//! Conventions:
//! - A directive is the first non-whitespace text on its own line.
//! - Supported: `#ifdef NAME`, `#ifndef NAME`, `#endif`. Nesting is fine.
//! - Anything between an inactive `#ifdef`/`#ifndef` and its matching `#endif`
//!   is dropped. Trailing whitespace on the directive is ignored.

use vstd::prelude::*;

use crate::strings::{chars_of, is_white_space, str_eq, white_space};

verus! {

/// A set of preprocessor names.
pub struct DefineSet {
    names: Vec<&'static str>,
}

impl View for DefineSet {
    type V = Set<Seq<char>>;

    closed spec fn view(&self) -> Set<Seq<char>> {
        Set::new(|n: Seq<char>| exists|i: int| 0 <= i < self.names@.len() && self.names@[i]@ == n)
    }
}

impl DefineSet {
    /// The empty set.
    pub fn new() -> (d: DefineSet)
        ensures
            d@ == Set::<Seq<char>>::empty(),
    {
        let d = DefineSet { names: Vec::new() };
        assert(d@ =~= Set::<Seq<char>>::empty());
        d
    }

    /// Whether `name` is defined.
    pub fn contains(&self, name: &str) -> (r: bool)
        ensures
            r == self@.contains(name@),
    {
        let n: usize = self.names.len();
        let mut i: usize = 0;
        while i < n
            invariant
                i <= n,
                n == self.names@.len(),
                forall|j: int| 0 <= j < i ==> self.names@[j]@ != name@,
            decreases n - i,
        {
            if str_eq(self.names[i], name) {
                return true;
            }
            i = i + 1;
        }
        false
    }

    /// Defines `name`; the answer tells whether it was new.
    pub fn insert(&mut self, name: &'static str) -> (fresh: bool)
        ensures
            final(self)@ == old(self)@.insert(name@),
            fresh == !old(self)@.contains(name@),
    {
        if self.contains(name) {
            assert(self@ =~= old(self)@.insert(name@));
            return false;
        }
        self.names.push(name);
        proof {
            let before = old(self).names@;
            let after = self.names@;
            assert forall|n: Seq<char>| self@.contains(n) == old(self)@.insert(name@).contains(n) by {
                if old(self)@.contains(n) {
                    let i = choose|i: int| 0 <= i < before.len() && before[i]@ == n;
                    assert(after[i]@ == n);
                }
                if n == name@ {
                    assert(after[before.len() as int]@ == n);
                }
            }
            assert(self@ =~= old(self)@.insert(name@));
        }
        true
    }

    /// The set of the given names.
    pub fn of(names: &[&'static str]) -> (d: DefineSet)
        ensures
            d@ == names_of(names@),
    {
        let mut d = DefineSet::new();
        let n: usize = names.len();
        let mut i: usize = 0;
        assert(names@.take(0) =~= Seq::<&'static str>::empty());
        assert(d@ =~= names_of(names@.take(0)));
        while i < n
            invariant
                i <= n,
                n == names@.len(),
                d@ == names_of(names@.take(i as int)),
            decreases n - i,
        {
            d.insert(names[i]);
            proof {
                let old_part = names@.take(i as int);
                let new_part = names@.take(i + 1);
                assert(new_part == old_part.push(names@[i as int]));
                assert forall|x: Seq<char>| names_of(new_part).contains(x) == names_of(old_part).insert(
                    names@[i as int]@,
                ).contains(x) by {
                    if names_of(old_part).contains(x) {
                        let k = choose|k: int| 0 <= k < old_part.len() && old_part[k]@ == x;
                        assert(new_part[k]@ == x);
                    }
                    if x == names@[i as int]@ {
                        assert(new_part[i as int]@ == x);
                    }
                }
                assert(names_of(new_part) =~= names_of(old_part).insert(names@[i as int]@));
            }
            i = i + 1;
        }
        assert(names@.take(n as int) == names@);
        d
    }
}

/// The texts that occur in `names`.
pub open spec fn names_of(names: Seq<&'static str>) -> Set<Seq<char>> {
    Set::new(|n: Seq<char>| exists|i: int| 0 <= i < names.len() && names[i]@ == n)
}

/// Index of the first `\n` in `s`, or its length when there is none.
pub open spec fn first_newline(s: Seq<char>) -> nat
    decreases s.len(),
{
    if s.len() == 0 || s[0] == '\n' {
        0
    } else {
        1 + first_newline(s.skip(1))
    }
}

/// `s` without one trailing carriage return.
pub open spec fn strip_cr(s: Seq<char>) -> Seq<char> {
    if s.len() > 0 && s.last() == '\r' {
        s.drop_last()
    } else {
        s
    }
}

/// The lines of `s`: split at `\n` or `\r\n`, the ending left out. A final
/// line ending starts no further line.
pub open spec fn lines(s: Seq<char>) -> Seq<Seq<char>>
    decreases s.len(),
{
    let k = first_newline(s);
    if s.len() == 0 {
        Seq::empty()
    } else if k >= s.len() {
        seq![s]
    } else {
        seq![strip_cr(s.take(k as int))] + lines(s.skip(k as int + 1))
    }
}

/// `s` without leading white space.
pub open spec fn trim_start(s: Seq<char>) -> Seq<char>
    decreases s.len(),
{
    if s.len() > 0 && is_white_space(s[0]) {
        trim_start(s.skip(1))
    } else {
        s
    }
}

/// `s` without trailing white space.
pub open spec fn trim_end(s: Seq<char>) -> Seq<char>
    decreases s.len(),
{
    if s.len() > 0 && is_white_space(s.last()) {
        trim_end(s.drop_last())
    } else {
        s
    }
}

/// `s` without leading and trailing white space.
pub open spec fn trim(s: Seq<char>) -> Seq<char> {
    trim_end(trim_start(s))
}

/// Whether `s` begins with `prefix`.
pub open spec fn has_prefix(s: Seq<char>, prefix: Seq<char>) -> bool {
    prefix.len() <= s.len() && s.take(prefix.len() as int) == prefix
}

/// What a line of source is to the preprocessor.
pub enum Directive {
    /// `#ifdef NAME`.
    Ifdef(Seq<char>),
    /// `#ifndef NAME`.
    Ifndef(Seq<char>),
    /// `#endif`.
    Endif,
    /// Source text.
    Text,
}

/// The directive that `line` carries.
pub open spec fn directive(line: Seq<char>) -> Directive {
    let t = trim_start(line);
    if has_prefix(t, "#ifdef "@) {
        Directive::Ifdef(trim(t.skip("#ifdef "@.len() as int)))
    } else if has_prefix(t, "#ifndef "@) {
        Directive::Ifndef(trim(t.skip("#ifndef "@.len() as int)))
    } else if has_prefix(t, "#endif"@) {
        Directive::Endif
    } else {
        Directive::Text
    }
}

/// State of a pass: for each open branch (the source itself is the outermost)
/// whether it is emitting, what was emitted, and the number of the first line
/// that closed a branch nobody opened.
pub struct Scan {
    pub stack: Seq<bool>,
    pub out: Seq<char>,
    pub unmatched: Option<nat>,
}

/// The effect of one line, `number` counted from 1. Nothing follows an
/// unmatched `#endif`.
pub open spec fn scan_line(s: Scan, line: Seq<char>, number: nat, defines: Set<Seq<char>>) -> Scan {
    if s.unmatched is Some {
        s
    } else {
        match directive(line) {
            Directive::Ifdef(name) => Scan {
                stack: s.stack.push(s.stack.last() && defines.contains(name)),
                ..s
            },
            Directive::Ifndef(name) => Scan {
                stack: s.stack.push(s.stack.last() && !defines.contains(name)),
                ..s
            },
            Directive::Endif => if s.stack.len() > 1 {
                Scan { stack: s.stack.drop_last(), ..s }
            } else {
                Scan { unmatched: Some(number), ..s }
            },
            Directive::Text => if s.stack.last() {
                Scan { out: s.out + line.push('\n'), ..s }
            } else {
                s
            },
        }
    }
}

/// The state after all of `ls`.
pub open spec fn scan(ls: Seq<Seq<char>>, defines: Set<Seq<char>>) -> Scan
    decreases ls.len(),
{
    if ls.len() == 0 {
        Scan { stack: seq![true], out: Seq::empty(), unmatched: None }
    } else {
        scan_line(scan(ls.drop_last(), defines), ls.last(), ls.len(), defines)
    }
}

/// Why a source cannot be preprocessed.
#[derive(Clone, Copy, PartialEq, Eq, Debug, Structural)]
pub enum PreprocError {
    /// An `#endif` without an open branch, at this line (counted from 1).
    UnmatchedEndif { line: usize },
    /// This many branches are still open at the end of the source.
    Unterminated { open: usize },
}

/// Whether every `#endif` of `source` closes a branch and none stays open.
/// Which names are defined plays no part (`law_balance_ignores_defines`).
pub open spec fn balanced(source: Seq<char>) -> bool {
    let s = scan(lines(source), Set::empty());
    s.unmatched is None && s.stack.len() == 1
}

/// What preprocessing leaves of `source`.
pub open spec fn stripped(source: Seq<char>, defines: Set<Seq<char>>) -> Seq<char> {
    scan(lines(source), defines).out
}


/// The part of `src` from `from` up to `to`.
spec fn part(src: Seq<char>, from: usize, to: usize) -> Seq<char> {
    src.subrange(from as int, to as int)
}

fn skip_white(src: &Vec<char>, from: usize, to: usize) -> (r: usize)
    requires
        from <= to <= src@.len(),
    ensures
        from <= r <= to,
        trim_start(part(src@, from, to)) == part(src@, r, to),
{
    let mut r: usize = from;
    while r < to && white_space(src[r])
        invariant
            from <= r <= to <= src@.len(),
            trim_start(part(src@, from, to)) == trim_start(part(src@, r, to)),
        decreases to - r,
    {
        assert(part(src@, r, to).skip(1) == part(src@, (r + 1) as usize, to));
        r = r + 1;
    }
    r
}

fn drop_white(src: &Vec<char>, from: usize, to: usize) -> (r: usize)
    requires
        from <= to <= src@.len(),
    ensures
        from <= r <= to,
        trim_end(part(src@, from, to)) == part(src@, from, r),
{
    let mut r: usize = to;
    while r > from && white_space(src[r - 1])
        invariant
            from <= r <= to <= src@.len(),
            trim_end(part(src@, from, to)) == trim_end(part(src@, from, r)),
        decreases r,
    {
        assert(part(src@, from, r).drop_last() == part(src@, from, (r - 1) as usize));
        r = r - 1;
    }
    r
}

fn prefix_at(src: &Vec<char>, from: usize, to: usize, prefix: &Vec<char>) -> (r: bool)
    requires
        from <= to <= src@.len(),
    ensures
        r == has_prefix(part(src@, from, to), prefix@),
{
    let n: usize = prefix.len();
    if n > to - from {
        return false;
    }
    let ghost text = part(src@, from, to);
    let mut i: usize = 0;
    while i < n
        invariant
            i <= n,
            n == prefix@.len(),
            from <= to <= src@.len(),
            n <= to - from,
            text == part(src@, from, to),
            text.take(i as int) == prefix@.take(i as int),
        decreases n - i,
    {
        if src[from + i] != prefix[i] {
            assert(text.take(n as int)[i as int] != prefix@[i as int]);
            return false;
        }
        assert(text.take(i + 1) == text.take(i as int).push(text[i as int]));
        assert(prefix@.take(i + 1) == prefix@.take(i as int).push(prefix@[i as int]));
        i = i + 1;
    }
    assert(prefix@.take(n as int) == prefix@);
    true
}

fn push_part(out: &mut String, src: &Vec<char>, from: usize, to: usize)
    requires
        from <= to <= src@.len(),
    ensures
        final(out)@ == old(out)@ + part(src@, from, to),
{
    let mut i: usize = from;
    assert(part(src@, from, from) =~= Seq::<char>::empty());
    while i < to
        invariant
            from <= i <= to <= src@.len(),
            out@ == old(out)@ + part(src@, from, i),
        decreases to - i,
    {
        out.push(src[i]);
        assert(part(src@, from, (i + 1) as usize) == part(src@, from, i).push(src@[i as int]));
        i = i + 1;
    }
}

/// The name that follows a directive's keyword.
fn name_at(src: &Vec<char>, from: usize, to: usize) -> (name: String)
    requires
        from <= to <= src@.len(),
    ensures
        name@ == trim(part(src@, from, to)),
{
    let a: usize = skip_white(src, from, to);
    let b: usize = drop_white(src, a, to);
    let mut name = String::new();
    push_part(&mut name, src, a, b);
    name
}

/// End of the line that starts at `from`.
fn find_newline(src: &Vec<char>, from: usize) -> (k: usize)
    requires
        from <= src@.len(),
    ensures
        from <= k <= src@.len(),
        first_newline(src@.skip(from as int)) == k - from,
        k < src@.len() ==> src@[k as int] == '\n',
{
    let n: usize = src.len();
    let mut k: usize = from;
    while k < n && src[k] != '\n'
        invariant
            from <= k <= n,
            n == src@.len(),
            first_newline(src@.skip(from as int)) == k - from + first_newline(src@.skip(k as int)),
        decreases n - k,
    {
        assert(src@.skip(k as int).skip(1) == src@.skip(k + 1));
        k = k + 1;
    }
    k
}

/// Strips the inactive branches of `source`, or says why its directives do not
/// pair up.
pub fn try_preprocess(source: &str, defines: &DefineSet) -> (r: Result<String, PreprocError>)
    ensures
        ({
            let s = scan(lines(source@), defines@);
            match r {
                Ok(out) => s.unmatched is None && s.stack.len() == 1 && out@ == s.out,
                Err(PreprocError::UnmatchedEndif { line }) => s.unmatched == Some(line as nat),
                Err(PreprocError::Unterminated { open }) => s.unmatched is None && open > 0
                    && s.stack.len() == open + 1,
            }
        }),
{
    let src = chars_of(source);
    let ifdef = chars_of("#ifdef ");
    let ifndef = chars_of("#ifndef ");
    let endif = chars_of("#endif");
    let n: usize = src.len();
    let mut out = String::new();
    let mut stack: Vec<bool> = Vec::new();
    stack.push(true);
    let mut pos: usize = 0;
    let mut count: usize = 0;
    let ghost mut done: Seq<Seq<char>> = Seq::empty();
    assert(src@.skip(0) == src@);
    assert(lines(src@) =~= done + lines(src@.skip(0)));
    while pos < n
        invariant
            pos <= n,
            n == src@.len(),
            src@ == source@,
            ifdef@ == "#ifdef "@,
            ifndef@ == "#ifndef "@,
            endif@ == "#endif"@,
            count == done.len(),
            count <= pos,
            lines(src@) == done + lines(src@.skip(pos as int)),
            scan(done, defines@) == (Scan { stack: stack@, out: out@, unmatched: None }),
            stack@.len() >= 1,
            stack@.len() <= count + 1,
        decreases n - pos,
    {
        let k: usize = find_newline(&src, pos);
        let end: usize = if k < n && k > pos && src[k - 1] == '\r' {
            k - 1
        } else {
            k
        };
        let next: usize = if k < n {
            k + 1
        } else {
            n
        };
        let ghost line = part(src@, pos, end);
        let ghost before = done;
        proof {
            let rest = src@.skip(pos as int);
            assert(rest.take(k - pos) == part(src@, pos, k));
            if k < n {
                assert(strip_cr(part(src@, pos, k)) == line);
                assert(rest.skip((k - pos) + 1) == src@.skip(next as int));
            } else {
                assert(rest == line);
                assert(src@.skip(next as int) =~= Seq::<char>::empty());
            }
            assert(lines(rest) =~= seq![line] + lines(src@.skip(next as int)));
            done = done.push(line);
            assert(lines(src@) =~= done + lines(src@.skip(next as int)));
            assert(done.drop_last() == before);
        }
        let start: usize = skip_white(&src, pos, end);
        let ghost text = part(src@, start, end);
        let active: bool = stack[stack.len() - 1];
        count = count + 1;
        if prefix_at(&src, start, end, &ifdef) {
            let at: usize = start + ifdef.len();
            assert(text.skip("#ifdef "@.len() as int) == part(src@, at, end));
            let name = name_at(&src, at, end);
            let hit: bool = defines.contains(name.as_str());
            stack.push(active && hit);
        } else if prefix_at(&src, start, end, &ifndef) {
            let at: usize = start + ifndef.len();
            assert(text.skip("#ifndef "@.len() as int) == part(src@, at, end));
            let name = name_at(&src, at, end);
            let hit: bool = defines.contains(name.as_str());
            stack.push(active && !hit);
        } else if prefix_at(&src, start, end, &endif) {
            if stack.len() <= 1 {
                proof {
                    lemma_unmatched_stays(done, lines(src@.skip(next as int)), defines@);
                }
                return Err(PreprocError::UnmatchedEndif { line: count });
            }
            stack.pop();
        } else if active {
            push_part(&mut out, &src, pos, end);
            out.push('\n');
            assert(out@ =~= scan(before, defines@).out + line.push('\n'));
        }
        pos = next;
    }
    assert(lines(src@) =~= done);
    if stack.len() != 1 {
        return Err(PreprocError::Unterminated { open: stack.len() - 1 });
    }
    Ok(out)
}

/// Once an `#endif` was unmatched, later lines change nothing.
proof fn lemma_unmatched_stays(a: Seq<Seq<char>>, b: Seq<Seq<char>>, defines: Set<Seq<char>>)
    requires
        scan(a, defines).unmatched is Some,
    ensures
        scan(a + b, defines) == scan(a, defines),
    decreases b.len(),
{
    if b.len() == 0 {
        assert(a + b == a);
    } else {
        lemma_unmatched_stays(a, b.drop_last(), defines);
        assert((a + b).drop_last() == a + b.drop_last());
    }
}


/// Strips the inactive `#ifdef`/`#ifndef` branches of WGSL source according to
/// `defines`. See the module docs for the supported subset.
///
/// The directives of `source` must pair up; [`try_preprocess`] tells when they
/// do not.
pub fn preprocess(source: &str, defines: &DefineSet) -> (out: String)
    requires
        balanced(source@),
    ensures
        out@ == stripped(source@, defines@),
{
    proof {
        law_balance_ignores_defines(lines(source@), defines@, Set::empty());
    }
    match try_preprocess(source, defines) {
        Ok(out) => out,
        Err(_) => {
            assert(false);
            String::new()
        },
    }
}

/// Whether the directives of a source pair up does not depend on which names
/// are defined: the same lines open and close branches under every set.
pub proof fn law_balance_ignores_defines(
    ls: Seq<Seq<char>>,
    a: Set<Seq<char>>,
    b: Set<Seq<char>>,
)
    ensures
        scan(ls, a).stack.len() == scan(ls, b).stack.len(),
        scan(ls, a).unmatched == scan(ls, b).unmatched,
    decreases ls.len(),
{
    if ls.len() > 0 {
        law_balance_ignores_defines(ls.drop_last(), a, b);
    }
}

/// Source without directives passes through, each line ended by `\n`.
pub proof fn law_text_passes_through(ls: Seq<Seq<char>>, defines: Set<Seq<char>>)
    requires
        forall|i: int| 0 <= i < ls.len() ==> directive(#[trigger] ls[i]) is Text,
    ensures
        scan(ls, defines).stack == seq![true],
        scan(ls, defines).unmatched is None,
        scan(ls, defines).out == text_of(ls),
    decreases ls.len(),
{
    if ls.len() > 0 {
        assert forall|i: int| 0 <= i < ls.drop_last().len() implies directive(
            #[trigger] ls.drop_last()[i],
        ) is Text by {
            assert(ls.drop_last()[i] == ls[i]);
        }
        law_text_passes_through(ls.drop_last(), defines);
        assert(directive(ls[ls.len() - 1]) is Text);
    }
}

/// `ls` written out, each line followed by `\n`.
pub open spec fn text_of(ls: Seq<Seq<char>>) -> Seq<char>
    decreases ls.len(),
{
    if ls.len() == 0 {
        Seq::empty()
    } else {
        text_of(ls.drop_last()) + ls.last().push('\n')
    }
}

/// Only the names that a source's directives mention matter: two sets that
/// agree on those give the same result.
pub proof fn law_only_mentioned_names_matter(
    ls: Seq<Seq<char>>,
    a: Set<Seq<char>>,
    b: Set<Seq<char>>,
)
    requires
        forall|i: int, name: Seq<char>|
            0 <= i < ls.len() && (directive(#[trigger] ls[i]) == Directive::Ifdef(name) || directive(
                ls[i],
            ) == Directive::Ifndef(name)) ==> #[trigger] a.contains(name) == b.contains(name),
    ensures
        scan(ls, a) == scan(ls, b),
    decreases ls.len(),
{
    if ls.len() > 0 {
        let short = ls.drop_last();
        assert forall|i: int, name: Seq<char>|
            0 <= i < short.len() && (directive(#[trigger] short[i]) == Directive::Ifdef(name)
                || directive(short[i]) == Directive::Ifndef(name)) implies #[trigger] a.contains(
            name,
        ) == b.contains(name) by {
            assert(short[i] == ls[i]);
        }
        law_only_mentioned_names_matter(short, a, b);
        match directive(ls[ls.len() - 1]) {
            Directive::Ifdef(name) => {
                assert(a.contains(name) == b.contains(name));
            },
            Directive::Ifndef(name) => {
                assert(a.contains(name) == b.contains(name));
            },
            _ => {},
        }
    }
}

/// The source itself is always the outermost branch, and emits.
proof fn lemma_outermost(ls: Seq<Seq<char>>, defines: Set<Seq<char>>)
    ensures
        scan(ls, defines).stack.len() >= 1,
        scan(ls, defines).stack[0],
    decreases ls.len(),
{
    if ls.len() > 0 {
        lemma_outermost(ls.drop_last(), defines);
    }
}

/// Lines whose branches are closed among themselves do in a branch what they do
/// at the top, if the branch emits, and nothing otherwise.
proof fn lemma_after(a: Seq<Seq<char>>, b: Seq<Seq<char>>, defines: Set<Seq<char>>)
    requires
        scan(a, defines).unmatched is None,
        scan(b, defines).unmatched is None,
    ensures
        ({
            let s = scan(a, defines);
            let t = scan(b, defines);
            let on = s.stack.last();
            scan(a + b, defines) == (Scan {
                stack: s.stack.drop_last() + t.stack.map_values(|x: bool| on && x),
                out: if on {
                    s.out + t.out
                } else {
                    s.out
                },
                unmatched: None,
            })
        }),
    decreases b.len(),
{
    let s = scan(a, defines);
    let t = scan(b, defines);
    let on = s.stack.last();
    let r = scan(a + b, defines);
    lemma_outermost(a, defines);
    lemma_outermost(b, defines);
    if b.len() == 0 {
        assert(a + b == a);
        assert(s.stack.drop_last() + t.stack.map_values(|x: bool| on && x) =~= s.stack);
        assert(s.out + t.out =~= s.out);
    } else {
        let short = b.drop_last();
        let u = scan(short, defines);
        lemma_outermost(short, defines);
        lemma_after(a, short, defines);
        assert((a + b).drop_last() == a + short);
        let below = s.stack.drop_last();
        assert(r.stack =~= below + t.stack.map_values(|x: bool| on && x));
        assert(r.out =~= if on {
            s.out + t.out
        } else {
            s.out
        });
    }
}

/// Behind lines whose branches are all closed, further lines do what they do on
/// their own; only the numbers of the lines move on.
proof fn lemma_behind_balanced(a: Seq<Seq<char>>, b: Seq<Seq<char>>, defines: Set<Seq<char>>)
    requires
        scan(a, defines).unmatched is None,
        scan(a, defines).stack.len() == 1,
    ensures
        ({
            let s = scan(a, defines);
            let t = scan(b, defines);
            let r = scan(a + b, defines);
            &&& r.stack == t.stack
            &&& r.out == s.out + t.out
            &&& r.unmatched == match t.unmatched {
                Some(n) => Some((a.len() + n) as nat),
                None => None::<nat>,
            }
        }),
    decreases b.len(),
{
    let s = scan(a, defines);
    lemma_outermost(a, defines);
    if b.len() == 0 {
        assert(a + b == a);
        assert(s.stack =~= seq![true]);
        assert(s.out + scan(b, defines).out =~= s.out);
    } else {
        lemma_behind_balanced(a, b.drop_last(), defines);
        assert((a + b).drop_last() == a + b.drop_last());
        assert(scan(a + b, defines).out =~= s.out + scan(b, defines).out);
    }
}

/// An `#ifdef NAME` block around lines whose branches are closed among
/// themselves stands for these lines exactly where the name is defined, and the
/// `#ifndef NAME` block around the same lines exactly where it is not. Either
/// way the branch is closed again, and in a branch that does not emit neither
/// block leaves anything.
pub proof fn law_ifndef_complements_ifdef(
    before: Seq<Seq<char>>,
    ifdef: Seq<char>,
    ifndef: Seq<char>,
    endif: Seq<char>,
    name: Seq<char>,
    body: Seq<Seq<char>>,
    defines: Set<Seq<char>>,
)
    requires
        scan(before, defines).unmatched is None,
        scan(body, defines).unmatched is None,
        scan(body, defines).stack.len() == 1,
        directive(ifdef) == Directive::Ifdef(name),
        directive(ifndef) == Directive::Ifndef(name),
        directive(endif) is Endif,
    ensures
        ({
            let s = scan(before, defines);
            let around = scan(before + body, defines);
            let yes = scan((before.push(ifdef) + body).push(endif), defines);
            let no = scan((before.push(ifndef) + body).push(endif), defines);
            &&& around == (Scan {
                out: if s.stack.last() {
                    s.out + scan(body, defines).out
                } else {
                    s.out
                },
                ..s
            })
            &&& if defines.contains(name) {
                yes == around && no == s
            } else {
                yes == s && no == around
            }
        }),
{
    let s = scan(before, defines);
    let a = before.push(ifdef);
    let b = before.push(ifndef);
    assert(a.drop_last() == before);
    assert(b.drop_last() == before);
    lemma_outermost(before, defines);
    lemma_outermost(body, defines);
    lemma_after(before, body, defines);
    lemma_after(a, body, defines);
    lemma_after(b, body, defines);
    assert((a + body).push(endif).drop_last() == a + body);
    assert((b + body).push(endif).drop_last() == b + body);
    assert(scan(a, defines).stack.drop_last() == s.stack);
    assert(scan(b, defines).stack.drop_last() == s.stack);
    assert(scan(before + body, defines).stack =~= s.stack);
    assert(scan((a + body).push(endif), defines).stack =~= s.stack);
    assert(scan((b + body).push(endif), defines).stack =~= s.stack);
}

proof fn lemma_first_newline(s: Seq<char>)
    ensures
        first_newline(s) <= s.len(),
        first_newline(s) < s.len() ==> s[first_newline(s) as int] == '\n',
        forall|i: int| 0 <= i < first_newline(s) ==> s[i] != '\n',
    decreases s.len(),
{
    if s.len() > 0 && s[0] != '\n' {
        let rest = s.skip(1);
        lemma_first_newline(rest);
        assert forall|i: int| 0 <= i < first_newline(s) implies s[i] != '\n' by {
            if i > 0 {
                assert(rest[i - 1] == s[i]);
            }
        }
    }
}

proof fn lemma_first_newline_at(s: Seq<char>, k: int)
    requires
        0 <= k < s.len(),
        s[k] == '\n',
        forall|i: int| 0 <= i < k ==> s[i] != '\n',
    ensures
        first_newline(s) == k,
{
    lemma_first_newline(s);
    let n = first_newline(s) as int;
    if n < k {
        assert(s[n] != '\n');
    }
}

/// Two sources one behind the other have the lines of the one and then those of
/// the other, if the first ends at the end of a line.
proof fn lemma_lines_add(a: Seq<char>, b: Seq<char>)
    requires
        a.len() == 0 || a.last() == '\n',
    ensures
        lines(a + b) == lines(a) + lines(b),
    decreases a.len(),
{
    if a.len() == 0 {
        assert(a + b == b);
        assert(lines(a) + lines(b) =~= lines(b));
    } else {
        lemma_first_newline(a);
        let k = first_newline(a) as int;
        if k == a.len() {
            assert(a[a.len() - 1] != '\n');
        }
        let whole = a + b;
        assert forall|i: int| 0 <= i < k implies whole[i] != '\n' by {
            assert(whole[i] == a[i]);
        }
        lemma_first_newline_at(whole, k);
        let rest = a.skip(k + 1);
        assert(whole.take(k) == a.take(k));
        assert(whole.skip(k + 1) == rest + b);
        lemma_lines_add(rest, b);
        assert(lines(whole) =~= lines(a) + lines(b));
    }
}

/// No line holds a `\n`.
proof fn lemma_lines_are_lines(s: Seq<char>, i: int)
    requires
        0 <= i < lines(s).len(),
    ensures
        !lines(s)[i].contains('\n'),
    decreases s.len(),
{
    lemma_first_newline(s);
    let k = first_newline(s) as int;
    if s.len() > 0 {
        if i == 0 {
            let line = lines(s)[0];
            assert forall|j: int| 0 <= j < line.len() implies line[j] != '\n' by {
                assert(line[j] == s[j]);
            }
        } else {
            let rest = s.skip(k + 1);
            lemma_lines_are_lines(rest, i - 1);
            assert(lines(s)[i] == lines(rest)[i - 1]);
        }
    }
}

/// What is written out line by line is read back as these lines, each without
/// one trailing carriage return.
proof fn lemma_lines_of_text(ls: Seq<Seq<char>>)
    requires
        forall|i: int| 0 <= i < ls.len() ==> !(#[trigger] ls[i]).contains('\n'),
    ensures
        lines(text_of(ls)) == ls.map_values(|l: Seq<char>| strip_cr(l)),
        text_of(ls).len() == 0 || text_of(ls).last() == '\n',
    decreases ls.len(),
{
    if ls.len() == 0 {
        assert(lines(text_of(ls)) =~= ls.map_values(|l: Seq<char>| strip_cr(l)));
    } else {
        let short = ls.drop_last();
        assert forall|i: int| 0 <= i < short.len() implies !(#[trigger] short[i]).contains('\n') by {
            assert(short[i] == ls[i]);
        }
        lemma_lines_of_text(short);
        let line = ls.last();
        let last = line.push('\n');
        assert(!ls[ls.len() - 1].contains('\n'));
        assert forall|i: int| 0 <= i < line.len() implies last[i] != '\n' by {
            assert(line.contains(line[i]));
        }
        lemma_first_newline_at(last, line.len() as int);
        assert(last.take(line.len() as int) == line);
        assert(last.skip(line.len() as int + 1) =~= Seq::<char>::empty());
        assert(lines(last) =~= seq![strip_cr(line)]) by {
            reveal_with_fuel(lines, 2);
        }
        lemma_lines_add(text_of(short), last);
        assert(lines(text_of(ls)) =~= ls.map_values(|l: Seq<char>| strip_cr(l)));
    }
}

/// The lines that a pass emits.
pub open spec fn emitted(ls: Seq<Seq<char>>, defines: Set<Seq<char>>) -> Seq<Seq<char>>
    decreases ls.len(),
{
    if ls.len() == 0 {
        Seq::empty()
    } else {
        let s = scan(ls.drop_last(), defines);
        let before = emitted(ls.drop_last(), defines);
        if s.unmatched is None && directive(ls.last()) is Text && s.stack.last() {
            before.push(ls.last())
        } else {
            before
        }
    }
}

/// What a pass leaves is the lines that it emits, and these are lines of text
/// of its source.
proof fn lemma_emitted(ls: Seq<Seq<char>>, defines: Set<Seq<char>>)
    ensures
        scan(ls, defines).out == text_of(emitted(ls, defines)),
        forall|i: int|
            0 <= i < emitted(ls, defines).len() ==> directive(#[trigger] emitted(ls, defines)[i]) is Text
                && ls.contains(emitted(ls, defines)[i]),
    decreases ls.len(),
{
    if ls.len() > 0 {
        let short = ls.drop_last();
        lemma_emitted(short, defines);
        let now = emitted(ls, defines);
        let before = emitted(short, defines);
        assert(ls[ls.len() - 1] == ls.last());
        if now.len() > before.len() {
            assert(now.drop_last() == before);
        }
        assert forall|i: int| 0 <= i < now.len() implies directive(#[trigger] now[i]) is Text
            && ls.contains(now[i]) by {
            if i < before.len() {
                assert(now[i] == before[i]);
                let j = choose|j: int| 0 <= j < short.len() && short[j] == before[i];
                assert(ls[j] == now[i]);
            }
        }
    }
}

proof fn lemma_trim_start_keeps(s: Seq<char>, c: char)
    ensures
        trim_start(s).len() > 0 ==> trim_start(s.push(c)) == trim_start(s).push(c),
    decreases s.len(),
{
    if s.len() > 0 && is_white_space(s[0]) {
        lemma_trim_start_keeps(s.skip(1), c);
        assert(s.push(c).skip(1) == s.skip(1).push(c));
    }
}

/// A line of text stays one without its carriage return.
proof fn lemma_text_without_cr(line: Seq<char>)
    requires
        directive(line) is Text,
    ensures
        directive(strip_cr(line)) is Text,
{
    reveal_strlit("#ifdef ");
    reveal_strlit("#ifndef ");
    reveal_strlit("#endif");
    let short = strip_cr(line);
    if short != line {
        let t = trim_start(short);
        assert(short.push(line.last()) == line);
        lemma_trim_start_keeps(short, line.last());
        if has_prefix(t, "#ifdef "@) {
            assert(trim_start(line).take(7) == t.take(7));
        }
        if has_prefix(t, "#ifndef "@) {
            assert(trim_start(line).take(8) == t.take(8));
        }
        if has_prefix(t, "#endif"@) {
            assert(trim_start(line).take(6) == t.take(6));
        }
    }
}

/// No directive is left: every line of the result is text, and the result is
/// empty or ends at the end of a line.
pub proof fn law_no_directive_is_left(source: Seq<char>, defines: Set<Seq<char>>)
    ensures
        ({
            let out = stripped(source, defines);
            &&& forall|i: int| 0 <= i < lines(out).len() ==> directive(#[trigger] lines(out)[i]) is Text
            &&& balanced(out)
            &&& out.len() == 0 || out.last() == '\n'
        }),
{
    lemma_lines_of_stripped(source, defines);
    let ls = emitted(lines(source), defines);
    let out = stripped(source, defines);
    lemma_emitted(lines(source), defines);
    assert forall|i: int| 0 <= i < lines(out).len() implies directive(#[trigger] lines(out)[i]) is Text by {
        lemma_text_without_cr(ls[i]);
    }
    law_text_passes_through(lines(out), Set::empty());
}

proof fn lemma_lines_of_stripped(source: Seq<char>, defines: Set<Seq<char>>)
    ensures
        ({
            let out = stripped(source, defines);
            let ls = emitted(lines(source), defines);
            &&& lines(out) == ls.map_values(|l: Seq<char>| strip_cr(l))
            &&& out == text_of(ls)
            &&& out.len() == 0 || out.last() == '\n'
        }),
{
    let all = lines(source);
    let ls = emitted(all, defines);
    lemma_emitted(all, defines);
    assert forall|i: int| 0 <= i < ls.len() implies !(#[trigger] ls[i]).contains('\n') by {
        let j = choose|j: int| 0 <= j < all.len() && all[j] == ls[i];
        lemma_lines_are_lines(source, j);
    }
    lemma_lines_of_text(ls);
}

/// What was preprocessed is not changed by preprocessing it again, whatever is
/// defined then. (A line that is emitted with a carriage return at its end is
/// left out: the second pass takes that for a part of the line ending.)
pub proof fn law_preprocessing_is_idempotent(
    source: Seq<char>,
    defines: Set<Seq<char>>,
    again: Set<Seq<char>>,
)
    requires
        forall|i: int|
            0 <= i < emitted(lines(source), defines).len() ==> strip_cr(
                #[trigger] emitted(lines(source), defines)[i],
            ) == emitted(lines(source), defines)[i],
    ensures
        stripped(stripped(source, defines), again) == stripped(source, defines),
{
    let ls = emitted(lines(source), defines);
    let out = stripped(source, defines);
    lemma_lines_of_stripped(source, defines);
    assert(lines(out) =~= ls);
    law_no_directive_is_left(source, defines);
    law_text_passes_through(lines(out), again);
}

/// In particular it is not where the source holds no carriage return at all.
pub proof fn law_preprocessing_is_idempotent_without_returns(
    source: Seq<char>,
    defines: Set<Seq<char>>,
    again: Set<Seq<char>>,
)
    requires
        !source.contains('\r'),
    ensures
        stripped(stripped(source, defines), again) == stripped(source, defines),
{
    let all = lines(source);
    let ls = emitted(all, defines);
    lemma_emitted(all, defines);
    assert forall|i: int| 0 <= i < ls.len() implies strip_cr(#[trigger] ls[i]) == ls[i] by {
        let j = choose|j: int| 0 <= j < all.len() && all[j] == ls[i];
        lemma_lines_hold_source(source, j);
        if ls[i].len() > 0 && ls[i].last() == '\r' {
            assert(ls[i].contains('\r'));
        }
    }
    law_preprocessing_is_idempotent(source, defines, again);
}

/// A line holds nothing that is not in the source.
proof fn lemma_lines_hold_source(s: Seq<char>, i: int)
    requires
        0 <= i < lines(s).len(),
    ensures
        forall|c: char| #[trigger] lines(s)[i].contains(c) ==> s.contains(c),
    decreases s.len(),
{
    lemma_first_newline(s);
    let k = first_newline(s) as int;
    if s.len() > 0 {
        let line = lines(s)[i];
        assert forall|c: char| #[trigger] line.contains(c) implies s.contains(c) by {
            if i == 0 {
                let j = choose|j: int| 0 <= j < line.len() && line[j] == c;
                assert(s[j] == c);
            } else {
                let rest = s.skip(k + 1);
                lemma_lines_hold_source(rest, i - 1);
                assert(lines(rest)[i - 1] == line);
                let j = choose|j: int| 0 <= j < rest.len() && rest[j] == c;
                assert(s[j + k + 1] == c);
            }
        }
    }
}

/// Sources one behind the other can be preprocessed one by one, if the
/// directives of the first pair up and it ends at the end of a line.
pub proof fn law_parts_are_preprocessed_apart(
    a: Seq<char>,
    b: Seq<char>,
    defines: Set<Seq<char>>,
)
    requires
        balanced(a),
        a.len() == 0 || a.last() == '\n',
    ensures
        stripped(a + b, defines) == stripped(a, defines) + stripped(b, defines),
        balanced(a + b) == balanced(b),
{
    lemma_lines_add(a, b);
    law_balance_ignores_defines(lines(a), defines, Set::empty());
    lemma_behind_balanced(lines(a), lines(b), defines);
    lemma_behind_balanced(lines(a), lines(b), Set::empty());
}

/// Whether a text is white space only.
pub open spec fn is_blank(s: Seq<char>) -> bool {
    forall|i: int| 0 <= i < s.len() ==> is_white_space(#[trigger] s[i])
}

/// Whether a text neither begins nor ends with white space.
pub open spec fn is_trimmed(s: Seq<char>) -> bool {
    s.len() > 0 ==> !is_white_space(s[0]) && !is_white_space(s.last())
}

proof fn lemma_trim_start_blank(pad: Seq<char>, core: Seq<char>)
    requires
        is_blank(pad),
        core.len() > 0 ==> !is_white_space(core[0]),
    ensures
        trim_start(pad + core) == core,
    decreases pad.len(),
{
    if pad.len() > 0 {
        let rest = pad.skip(1);
        assert forall|i: int| 0 <= i < rest.len() implies is_white_space(#[trigger] rest[i]) by {
            assert(rest[i] == pad[i + 1]);
        }
        lemma_trim_start_blank(rest, core);
        assert((pad + core).skip(1) =~= rest + core);
        assert(is_white_space((pad + core)[0]));
    } else {
        assert(pad + core =~= core);
    }
}

proof fn lemma_trim_end_blank(core: Seq<char>, pad: Seq<char>)
    requires
        is_blank(pad),
        core.len() > 0 ==> !is_white_space(core.last()),
    ensures
        trim_end(core + pad) == core,
    decreases pad.len(),
{
    if pad.len() > 0 {
        let rest = pad.drop_last();
        assert forall|i: int| 0 <= i < rest.len() implies is_white_space(#[trigger] rest[i]) by {
            assert(rest[i] == pad[i]);
        }
        lemma_trim_end_blank(core, rest);
        assert((core + pad).drop_last() =~= core + rest);
        assert(is_white_space(pad[pad.len() - 1]));
        assert((core + pad).last() == pad.last());
    } else {
        assert(core + pad =~= core);
    }
}

proof fn lemma_trim_blank(pad: Seq<char>, core: Seq<char>, trail: Seq<char>)
    requires
        is_blank(pad),
        is_blank(trail),
        is_trimmed(core),
    ensures
        trim(pad + core + trail) == core,
{
    if core.len() > 0 {
        assert(pad + core + trail =~= pad + (core + trail));
        assert((core + trail)[0] == core[0]);
        lemma_trim_start_blank(pad, core + trail);
        lemma_trim_end_blank(core, trail);
    } else {
        let all = pad + core + trail;
        assert forall|i: int| 0 <= i < all.len() implies is_white_space(#[trigger] all[i]) by {
            if i < pad.len() {
                assert(all[i] == pad[i]);
            } else {
                assert(all[i] == trail[i - pad.len()]);
            }
        }
        assert(all + core =~= all);
        lemma_trim_start_blank(all, core);
    }
}

/// A directive counts however far it is indented, and its name is what stands
/// behind it without the white space around it.
pub proof fn law_directives_are_recognised(
    indent: Seq<char>,
    pad: Seq<char>,
    name: Seq<char>,
    trail: Seq<char>,
)
    requires
        is_blank(indent),
        is_blank(pad),
        is_blank(trail),
        is_trimmed(name),
    ensures
        directive(indent + ("#ifdef "@ + (pad + name + trail))) == Directive::Ifdef(name),
        directive(indent + ("#ifndef "@ + (pad + name + trail))) == Directive::Ifndef(name),
        directive(indent + ("#endif"@ + (pad + name + trail))) is Endif,
{
    reveal_strlit("#ifdef ");
    reveal_strlit("#ifndef ");
    reveal_strlit("#endif");
    let rest = pad + name + trail;
    lemma_trim_blank(pad, name, trail);
    let a = "#ifdef "@ + rest;
    let b = "#ifndef "@ + rest;
    let c = "#endif"@ + rest;
    lemma_trim_start_blank(indent, a);
    lemma_trim_start_blank(indent, b);
    lemma_trim_start_blank(indent, c);
    assert(a.take(7) =~= "#ifdef "@);
    assert(a.skip(7) =~= rest);
    assert(b.take(8) =~= "#ifndef "@);
    assert(b.skip(8) =~= rest);
    assert(b.take(7)[3] == 'n' && "#ifdef "@[3] == 'd');
    assert(c.take(6) =~= "#endif"@);
    if c.len() >= 7 {
        assert(c.take(7)[1] == 'e' && "#ifdef "@[1] == 'i');
    }
    if c.len() >= 8 {
        assert(c.take(8)[1] == 'e' && "#ifndef "@[1] == 'i');
    }
}

/// A line that does not begin with a hash, its indentation left aside, is source
/// text.
pub proof fn law_other_lines_are_text(indent: Seq<char>, rest: Seq<char>)
    requires
        is_blank(indent),
        rest.len() > 0 ==> !is_white_space(rest[0]) && rest[0] != '#',
    ensures
        directive(indent + rest) is Text,
{
    reveal_strlit("#ifdef ");
    reveal_strlit("#ifndef ");
    reveal_strlit("#endif");
    lemma_trim_start_blank(indent, rest);
    if rest.len() >= 7 {
        assert(rest.take(7)[0] == rest[0]);
    }
    if rest.len() >= 8 {
        assert(rest.take(8)[0] == rest[0]);
    }
    if rest.len() >= 6 {
        assert(rest.take(6)[0] == rest[0]);
    }
}

/// Each opening line opens one branch and each closing line closes one. A closing
/// line with no branch open is the error, and is told by its number counted from
/// 1, whatever follows it.
pub proof fn law_branches_open_and_close(
    before: Seq<Seq<char>>,
    line: Seq<char>,
    after: Seq<Seq<char>>,
    defines: Set<Seq<char>>,
)
    requires
        scan(before, defines).unmatched is None,
    ensures
        ({
            let s = scan(before, defines);
            let t = scan(before.push(line), defines);
            &&& s.stack.len() >= 1
            &&& (directive(line) is Ifdef || directive(line) is Ifndef) ==> t.stack.len()
                == s.stack.len() + 1 && t.unmatched is None && t.out == s.out
            &&& directive(line) is Endif && s.stack.len() > 1 ==> t.stack.len() == s.stack.len() - 1
                && t.unmatched is None && t.out == s.out
            &&& directive(line) is Endif && s.stack.len() == 1 ==> scan(
                before.push(line) + after,
                defines,
            ).unmatched == Some((before.len() + 1) as nat)
            &&& directive(line) is Text ==> t.stack == s.stack && t.unmatched is None
        }),
{
    lemma_outermost(before, defines);
    assert(before.push(line).drop_last() =~= before);
    if directive(line) is Endif && scan(before, defines).stack.len() == 1 {
        lemma_unmatched_stays(before.push(line), after, defines);
    }
}

/// A source is split at its line feeds: a text without one is one line, and what
/// follows a line feed is split in turn. A carriage return before the line feed
/// belongs to the ending.
pub proof fn law_lines_end_at_line_feeds(first: Seq<char>, rest: Seq<char>)
    requires
        !first.contains('\n'),
    ensures
        first.len() > 0 ==> lines(first) == seq![first],
        first.len() == 0 ==> lines(first).len() == 0,
        lines(first.push('\n') + rest).len() == lines(rest).len() + 1,
        lines(first.push('\n') + rest).skip(1) == lines(rest),
        first.len() == 0 || first.last() != '\r' ==> lines(first.push('\n') + rest)[0] == first,
        first.len() > 0 && first.last() == '\r' ==> lines(first.push('\n') + rest)[0]
            == first.drop_last(),
{
    lemma_first_newline(first);
    let n = first_newline(first) as int;
    if n < first.len() {
        assert(first.contains(first[n]));
    }
    let whole = first.push('\n') + rest;
    let k = first.len() as int;
    assert forall|i: int| 0 <= i < k implies whole[i] != '\n' by {
        assert(whole[i] == first[i]);
        assert(first.contains(first[i]));
    }
    lemma_first_newline_at(whole, k);
    assert(whole.take(k) =~= first);
    assert(whole.skip(k + 1) =~= rest);
    assert(lines(whole).skip(1) =~= lines(rest));
}

} // verus!
