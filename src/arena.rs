//! The arena that holds the store's rule files, kept by the `id_arena` crate.
use vstd::prelude::*;
use id_arena::{Arena, DefaultArenaBehavior, Id};
use crate::ignore::GitIgnoreFile;
use crate::rule::RuleView;

verus! {

#[verifier::external_type_specification]
#[verifier::external_body]
#[verifier::reject_recursive_types(T)]
#[verifier::reject_recursive_types(A)]
pub struct ExArena<T, A>(Arena<T, A>);

#[verifier::external_type_specification]
#[verifier::external_body]
#[verifier::reject_recursive_types(T)]
pub struct ExId<T>(Id<T>);

#[verifier::external_type_specification]
#[verifier::external_body]
#[verifier::reject_recursive_types(T)]
pub struct ExDefaultArenaBehavior<T>(DefaultArenaBehavior<T>);

/// The rules of the files that the arena holds, in allocation order.
pub uninterp spec fn arena_files(a: Arena<GitIgnoreFile>) -> Seq<Seq<RuleView>>;

/// Whether the id was made by this arena (its arena number is the arena's).
pub uninterp spec fn arena_owns(a: Arena<GitIgnoreFile>, id: Id<GitIgnoreFile>) -> bool;

/// The position that the id stands for (`Id::index`).
pub uninterp spec fn id_index(id: Id<GitIgnoreFile>) -> usize;

/// Relies on `Arena::new`: an arena holding nothing.
#[verifier::external_body]
pub(crate) fn new_arena() -> (r: Arena<GitIgnoreFile>)
    ensures
        arena_files(r) == Seq::<Seq<RuleView>>::empty(),
{
    Arena::new()
}

/// Relies on `Arena::alloc`: the item goes last, its id holds its position
/// and the arena's number, which the arena keeps for its whole life.
#[verifier::external_body]
pub(crate) fn alloc_file(a: &mut Arena<GitIgnoreFile>, file: GitIgnoreFile) -> (r: Id<GitIgnoreFile>)
    ensures
        arena_files(*final(a)) == arena_files(*old(a)).push(file@),
        id_index(r) == arena_files(*old(a)).len(),
        arena_owns(*final(a), r),
        forall|id: Id<GitIgnoreFile>| arena_owns(*final(a), id) == arena_owns(*old(a), id),
{
    a.alloc(file)
}

/// Relies on `Arena::get`: the item at the id's position when the id is of
/// this arena and the position is taken, else nothing.
#[verifier::external_body]
pub(crate) fn get(a: &Arena<GitIgnoreFile>, id: Id<GitIgnoreFile>) -> (r: Option<&GitIgnoreFile>)
    ensures
        arena_owns(*a, id) && id_index(id) < arena_files(*a).len() ==> (r is Some && r->Some_0@ == arena_files(*a)[id_index(id) as int]),
        !(arena_owns(*a, id) && id_index(id) < arena_files(*a).len()) ==> r is None,
{
    a.get(id)
}

/// Relies on `Arena::len`: the number of items allocated.
#[verifier::external_body]
pub(crate) fn len(a: &Arena<GitIgnoreFile>) -> (r: usize)
    ensures
        r == arena_files(*a).len(),
{
    a.len()
}

} // verus!
