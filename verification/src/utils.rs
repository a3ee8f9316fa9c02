//! Paths inside the container: a reference is resolved against the directory
//! of the package descriptor, component by component, without touching any
//! file system. The separator is always `/`.

use vstd::prelude::*;
use crate::text::{from_chars, to_chars};

verus! {

/// The view of each vector of characters.
pub open spec fn seqs(v: Seq<Vec<char>>) -> Seq<Seq<char>> {
    Seq::new(v.len(), |i: int| v[i]@)
}

/// The pieces of `s` between its separators: one more piece than there are
/// separators, so that an empty string has one empty piece.
pub open spec fn components(s: Seq<char>) -> Seq<Seq<char>>
    decreases s.len(),
{
    if s.len() == 0 {
        seq![Seq::<char>::empty()]
    } else {
        let head = components(s.drop_last());
        if s.last() == '/' {
            head.push(Seq::<char>::empty())
        } else {
            head.update(head.len() - 1, head.last().push(s.last()))
        }
    }
}

/// What is before the last separator of `path`; empty where it has none.
pub open spec fn parent_dir(path: Seq<char>) -> Seq<char>
    decreases path.len(),
{
    if path.len() == 0 {
        path
    } else if path.last() == '/' {
        path.drop_last()
    } else {
        parent_dir(path.drop_last())
    }
}

/// The piece `.`, which names the directory itself.
pub open spec fn is_dot(comp: Seq<char>) -> bool {
    comp == seq!['.']
}

/// The piece `..`, which names the directory above.
pub open spec fn is_dot_dot(comp: Seq<char>) -> bool {
    comp == seq!['.', '.']
}

/// The directory a reference starts from: the named pieces of the base, kept
/// as they are.
pub open spec fn start_stack(comps: Seq<Seq<char>>) -> Seq<Seq<char>>
    decreases comps.len(),
{
    if comps.len() == 0 {
        Seq::empty()
    } else if comps.last().len() == 0 {
        start_stack(comps.drop_last())
    } else {
        start_stack(comps.drop_last()).push(comps.last())
    }
}

/// One piece of a reference applied to the path built so far. An empty piece
/// and `.` change nothing. `..` takes the last piece away; where nothing is
/// left to take, it stays in the path as a marker, so that the result never
/// climbs out of the container. Any other piece is appended.
pub open spec fn apply_component(stack: Seq<Seq<char>>, comp: Seq<char>) -> Seq<Seq<char>> {
    if comp.len() == 0 || is_dot(comp) {
        stack
    } else if is_dot_dot(comp) {
        if stack.len() == 0 {
            stack.push(comp)
        } else {
            stack.drop_last()
        }
    } else {
        stack.push(comp)
    }
}

/// The pieces of a reference applied from left to right.
pub open spec fn apply_components(stack: Seq<Seq<char>>, comps: Seq<Seq<char>>) -> Seq<Seq<char>>
    decreases comps.len(),
{
    if comps.len() == 0 {
        stack
    } else {
        apply_component(apply_components(stack, comps.drop_last()), comps.last())
    }
}

/// The pieces written out with one separator between neighbours.
pub open spec fn join(parts: Seq<Seq<char>>) -> Seq<char>
    decreases parts.len(),
{
    if parts.len() == 0 {
        Seq::empty()
    } else if parts.len() == 1 {
        parts[0]
    } else {
        join(parts.drop_last()) + seq!['/'] + parts.last()
    }
}

/// The path that `relative` names when read from the directory `base_dir`.
pub open spec fn resolved(base_dir: Seq<char>, relative: Seq<char>) -> Seq<char> {
    join(apply_components(start_stack(components(base_dir)), components(relative)))
}

/// Every piece has a name and holds no separator.
pub open spec fn well_named(parts: Seq<Seq<char>>) -> bool {
    forall|i: int| 0 <= i < parts.len() ==> (#[trigger] parts[i]).len() > 0 && !parts[i].contains('/')
}

proof fn lemma_components_hold_no_separator(s: Seq<char>)
    ensures
        components(s).len() >= 1,
        forall|i: int| 0 <= i < components(s).len() ==> !(#[trigger] components(s)[i]).contains('/'),
    decreases s.len(),
{
    if s.len() > 0 {
        lemma_components_hold_no_separator(s.drop_last());
        let head = components(s.drop_last());
        if s.last() != '/' {
            let grown = head.last().push(s.last());
            assert forall|j: int| 0 <= j < grown.len() implies grown[j] != '/' by {
                if j < head.last().len() {
                    assert(head.last().contains(grown[j]));
                }
            }
        }
    }
}

proof fn lemma_start_stack_well_named(comps: Seq<Seq<char>>)
    requires
        forall|i: int| 0 <= i < comps.len() ==> !(#[trigger] comps[i]).contains('/'),
    ensures
        well_named(start_stack(comps)),
    decreases comps.len(),
{
    if comps.len() > 0 {
        lemma_start_stack_well_named(comps.drop_last());
    }
}

proof fn lemma_apply_components_well_named(stack: Seq<Seq<char>>, comps: Seq<Seq<char>>)
    requires
        well_named(stack),
        forall|i: int| 0 <= i < comps.len() ==> !(#[trigger] comps[i]).contains('/'),
    ensures
        well_named(apply_components(stack, comps)),
    decreases comps.len(),
{
    if comps.len() > 0 {
        lemma_apply_components_well_named(stack, comps.drop_last());
    }
}

proof fn lemma_join_starts_with_first_piece(parts: Seq<Seq<char>>)
    requires
        parts.len() > 0,
        parts[0].len() > 0,
    ensures
        join(parts).len() > 0,
        join(parts)[0] == parts[0][0],
    decreases parts.len(),
{
    if parts.len() > 1 {
        lemma_join_starts_with_first_piece(parts.drop_last());
    }
}

/// A resolved path never begins with a separator: whatever the reference
/// holds, the result stays a path relative to the root of the container.
pub proof fn lemma_resolved_is_relative(base_dir: Seq<char>, relative: Seq<char>)
    ensures
        resolved(base_dir, relative).len() > 0 ==> resolved(base_dir, relative)[0] != '/',
{
    lemma_components_hold_no_separator(base_dir);
    lemma_components_hold_no_separator(relative);
    lemma_start_stack_well_named(components(base_dir));
    let start = start_stack(components(base_dir));
    lemma_apply_components_well_named(start, components(relative));
    let parts = apply_components(start, components(relative));
    if parts.len() > 0 {
        lemma_join_starts_with_first_piece(parts);
        assert(parts[0].contains(parts[0][0]));
    }
}

/// Splits `s` at every separator.
pub fn split_components(s: &[char]) -> (out: Vec<Vec<char>>)
    ensures
        seqs(out@) == components(s@),
{
    let mut done: Vec<Vec<char>> = Vec::new();
    let mut cur: Vec<char> = Vec::new();
    let mut i: usize = 0;
    assert(s@.take(0) =~= Seq::<char>::empty());
    assert(seqs(done@).push(cur@) =~= components(s@.take(0)));
    while i < s.len()
        invariant
            i <= s.len(),
            seqs(done@).push(cur@) == components(s@.take(i as int)),
        decreases s.len() - i,
    {
        let c = s[i];
        proof {
            assert(s@.take(i + 1).drop_last() =~= s@.take(i as int));
            assert(s@.take(i + 1).last() == c);
        }
        let ghost before = seqs(done@).push(cur@);
        if c == '/' {
            done.push(cur);
            cur = Vec::new();
            assert(seqs(done@).push(cur@) =~= before.push(Seq::<char>::empty()));
        } else {
            cur.push(c);
            assert(seqs(done@).push(cur@) =~= before.update(before.len() - 1, before.last().push(c)));
        }
        i += 1;
    }
    assert(s@.take(s.len() as int) =~= s@);
    let ghost last = seqs(done@).push(cur@);
    done.push(cur);
    assert(seqs(done@) =~= last);
    done
}

/// The length of what is before the last separator of `path`.
fn parent_len(path: &[char]) -> (n: usize)
    ensures
        n <= path.len(),
        path@.take(n as int) == parent_dir(path@),
{
    let mut n: usize = path.len();
    assert(path@.take(n as int) =~= path@);
    while n > 0
        invariant
            n <= path.len(),
            parent_dir(path@) == parent_dir(path@.take(n as int)),
        decreases n,
    {
        proof {
            assert(path@.take(n as int).drop_last() =~= path@.take(n - 1));
            assert(path@.take(n as int).last() == path@[n - 1]);
        }
        n -= 1;
        if path[n] == '/' {
            return n;
        }
    }
    assert(path@.take(0) =~= Seq::<char>::empty());
    n
}

fn component_is_dot(comp: &Vec<char>) -> (b: bool)
    ensures
        b == is_dot(comp@),
{
    let b = comp.len() == 1 && comp[0] == '.';
    assert(b ==> comp@ =~= seq!['.']);
    b
}

fn component_is_dot_dot(comp: &Vec<char>) -> (b: bool)
    ensures
        b == is_dot_dot(comp@),
{
    let b = comp.len() == 2 && comp[0] == '.' && comp[1] == '.';
    assert(b ==> comp@ =~= seq!['.', '.']);
    b
}

/// Writes the pieces out with one separator between neighbours.
fn join_components(parts: &Vec<Vec<char>>) -> (out: Vec<char>)
    ensures
        out@ == join(seqs(parts@)),
{
    let mut out: Vec<char> = Vec::new();
    let mut i: usize = 0;
    assert(seqs(parts@).take(0) =~= Seq::<Seq<char>>::empty());
    while i < parts.len()
        invariant
            i <= parts.len(),
            out@ == join(seqs(parts@).take(i as int)),
        decreases parts.len() - i,
    {
        let ghost upto = seqs(parts@).take(i + 1);
        proof {
            assert(upto.drop_last() =~= seqs(parts@).take(i as int));
            assert(upto.last() == parts@[i as int]@);
        }
        if i > 0 {
            out.push('/');
        }
        let part = &parts[i];
        let ghost glued = out@;
        let mut j: usize = 0;
        while j < part.len()
            invariant
                j <= part.len(),
                out@ == glued + part@.take(j as int),
            decreases part.len() - j,
        {
            out.push(part[j]);
            assert(part@.take(j + 1) =~= part@.take(j as int).push(part@[j as int]));
            j += 1;
        }
        assert(part@.take(part.len() as int) =~= part@);
        assert(out@ =~= join(upto)) by {
            if i == 0 {
                assert(glued =~= Seq::<char>::empty());
            }
        }
        i += 1;
    }
    assert(seqs(parts@).take(parts.len() as int) =~= seqs(parts@));
    out
}

/// Resolves `relative` against the directory `base_dir`. A `.` piece and an
/// empty piece are skipped, `..` removes the piece before it (and stays as a
/// marker where there is none), any other piece is appended. Nothing is read
/// from any file system, and every input has a result.
pub fn resolve(base_dir: &str, relative: &str) -> (path: String)
    ensures
        path@ == resolved(base_dir@, relative@),
        path@.len() > 0 ==> path@[0] != '/',
{
    let base = to_chars(base_dir);
    let rel = to_chars(relative);
    let base_parts = split_components(base.as_slice());
    let rel_parts = split_components(rel.as_slice());
    let mut stack: Vec<Vec<char>> = Vec::new();

    let mut i: usize = 0;
    assert(seqs(base_parts@).take(0) =~= Seq::<Seq<char>>::empty());
    while i < base_parts.len()
        invariant
            i <= base_parts.len(),
            seqs(stack@) == start_stack(seqs(base_parts@).take(i as int)),
        decreases base_parts.len() - i,
    {
        proof {
            assert(seqs(base_parts@).take(i + 1).drop_last() =~= seqs(base_parts@).take(i as int));
        }
        let ghost before = seqs(stack@);
        if base_parts[i].len() > 0 {
            stack.push(base_parts[i].clone());
            assert(seqs(stack@) =~= before.push(base_parts@[i as int]@));
        }
        i += 1;
    }
    assert(seqs(base_parts@).take(base_parts.len() as int) =~= seqs(base_parts@));

    let ghost start = seqs(stack@);
    let mut k: usize = 0;
    assert(seqs(rel_parts@).take(0) =~= Seq::<Seq<char>>::empty());
    while k < rel_parts.len()
        invariant
            k <= rel_parts.len(),
            seqs(stack@) == apply_components(start, seqs(rel_parts@).take(k as int)),
        decreases rel_parts.len() - k,
    {
        proof {
            assert(seqs(rel_parts@).take(k + 1).drop_last() =~= seqs(rel_parts@).take(k as int));
        }
        let ghost before = seqs(stack@);
        let comp = &rel_parts[k];
        if comp.len() == 0 || component_is_dot(comp) {
        } else if component_is_dot_dot(comp) {
            if stack.len() == 0 {
                stack.push(comp.clone());
                assert(seqs(stack@) =~= before.push(comp@));
            } else {
                stack.pop();
                assert(seqs(stack@) =~= before.drop_last());
            }
        } else {
            stack.push(comp.clone());
            assert(seqs(stack@) =~= before.push(comp@));
        }
        k += 1;
    }
    assert(seqs(rel_parts@).take(rel_parts.len() as int) =~= seqs(rel_parts@));

    let joined = join_components(&stack);
    proof {
        lemma_resolved_is_relative(base_dir@, relative@);
    }
    from_chars(joined.as_slice())
}

/// The path inside the container of a document that the package descriptor at
/// `opf_path` refers to as `rel`: `rel` resolved against the directory that
/// holds the descriptor.
pub fn normalize_zip_path(opf_path: &str, rel: String) -> (path: String)
    ensures
        path@ == resolved(parent_dir(opf_path@), rel@),
        path@.len() > 0 ==> path@[0] != '/',
{
    let chars = to_chars(opf_path);
    let n = parent_len(chars.as_slice());
    let dir = opf_path.substring_char(0, n);
    assert(opf_path@.subrange(0, n as int) =~= opf_path@.take(n as int));
    resolve(dir, rel.as_str())
}

} // verus!
