//! Loaders carried inside the executable. This build carries none: asking
//! for their names or for one of them is refused with
//! [`LoaderError::EmbeddedUnavailable`]. How a requested name picks a loader
//! from a catalogue is [`select`].

use vstd::prelude::*;
use crate::loader::{BootImage, LoaderError};
use crate::text::string_views;

verus! {

/// The names of the carried loaders.
pub fn names() -> (r: Result<Vec<String>, LoaderError>)
    ensures
        r == Err::<Vec<String>, LoaderError>(LoaderError::EmbeddedUnavailable),
{
    Err(LoaderError::EmbeddedUnavailable)
}

/// The carried loader named `requested`.
pub fn load(requested: &str) -> (r: Result<BootImage, LoaderError>)
    ensures
        r == Err::<BootImage, LoaderError>(LoaderError::EmbeddedUnavailable),
{
    Err(LoaderError::EmbeddedUnavailable)
}

/// A catalogue entry answers to a request that is its full name or its
/// name without the `.boot` suffix.
pub open spec fn answers_to(name: Seq<char>, requested: Seq<char>) -> bool {
    name == requested || name == requested + ".boot"@
}

/// The entries of `names` that answer to `requested`, in order.
pub open spec fn answering(names: Seq<Seq<char>>, requested: Seq<char>) -> Seq<Seq<char>>
    decreases names.len(),
{
    if names.len() == 0 {
        seq![]
    } else if answers_to(names.last(), requested) {
        answering(names.drop_last(), requested).push(names.last())
    } else {
        answering(names.drop_last(), requested)
    }
}

/// Picks the one catalogue entry that answers to `requested`: none is
/// [`LoaderError::EmbeddedNotFound`], several [`LoaderError::EmbeddedAmbiguous`].
pub fn select(catalogue: &Vec<String>, requested: &str) -> (r: Result<String, LoaderError>)
    ensures
        ({
            let m = answering(string_views(catalogue@), requested@);
            &&& m.len() == 1 <==> r is Ok
            &&& r matches Ok(name) ==> name@ == m[0]
            &&& m.len() == 0 ==> (r matches Err(LoaderError::EmbeddedNotFound { requested: q })
                && q@ == requested@)
            &&& m.len() > 1 ==> (r matches Err(LoaderError::EmbeddedAmbiguous { requested: q })
                && q@ == requested@)
        }),
{
    let ghost views = string_views(catalogue@);
    let exact = String::from_str(requested);
    let mut with_suffix = String::from_str(requested);
    with_suffix.append(".boot");
    let mut found: Vec<String> = Vec::new();
    let mut i: usize = 0;
    assert(views.take(0) =~= Seq::<Seq<char>>::empty());
    while i < catalogue.len()
        invariant
            i <= catalogue@.len(),
            views == string_views(catalogue@),
            exact@ == requested@,
            with_suffix@ == requested@ + ".boot"@,
            string_views(found@) == answering(views.take(i as int), requested@),
        decreases catalogue@.len() - i,
    {
        let name = &catalogue[i];
        assert(views.take(i + 1).drop_last() =~= views.take(i as int));
        assert(views.take(i + 1).last() == name@);
        let ghost before = string_views(found@);
        if *name == exact || *name == with_suffix {
            found.push(name.clone());
            assert(string_views(found@) =~= before.push(name@));
        }
        i += 1;
    }
    assert(views.take(catalogue@.len() as int) =~= views);
    if found.len() == 1 {
        Ok(found[0].clone())
    } else if found.len() == 0 {
        Err(LoaderError::EmbeddedNotFound { requested: String::from_str(requested) })
    } else {
        Err(LoaderError::EmbeddedAmbiguous { requested: String::from_str(requested) })
    }
}

proof fn lemma_answering_single(names: Seq<Seq<char>>, requested: Seq<char>, i: int)
    requires
        0 <= i < names.len(),
        answers_to(names[i], requested),
        forall|j: int| 0 <= j < names.len() && j != i ==> !answers_to(#[trigger] names[j], requested),
    ensures
        answering(names, requested) == seq![names[i]],
    decreases names.len(),
{
    let d = names.drop_last();
    if i == names.len() - 1 {
        assert forall|j: int| 0 <= j < d.len() implies !answers_to(#[trigger] d[j], requested) by {
            assert(d[j] == names[j]);
        }
        lemma_answering_none(d, requested);
    } else {
        assert forall|j: int| 0 <= j < d.len() && j != i implies !answers_to(#[trigger] d[j], requested) by {
            assert(d[j] == names[j]);
        }
        lemma_answering_single(d, requested, i);
        assert(!answers_to(names[names.len() - 1], requested));
    }
}

proof fn lemma_answering_none(names: Seq<Seq<char>>, requested: Seq<char>)
    requires
        forall|j: int| 0 <= j < names.len() ==> !answers_to(#[trigger] names[j], requested),
    ensures
        answering(names, requested) == Seq::<Seq<char>>::empty(),
    decreases names.len(),
{
    if names.len() > 0 {
        let d = names.drop_last();
        assert forall|j: int| 0 <= j < d.len() implies !answers_to(#[trigger] d[j], requested) by {
            assert(d[j] == names[j]);
        }
        assert(!answers_to(names[names.len() - 1], requested));
        lemma_answering_none(d, requested);
    }
}

/// A model is found by its file name and by that name without `.boot`,
/// both giving the file name, when no other entry of the catalogue answers
/// to either request.
pub proof fn law_model_by_filename_or_stem(names: Seq<Seq<char>>, i: int, stem: Seq<char>)
    requires
        0 <= i < names.len(),
        names[i] == stem + ".boot"@,
        forall|j: int|
            0 <= j < names.len() && j != i ==> #[trigger] names[j] != names[i] && names[j] != stem
                && names[j] != names[i] + ".boot"@,
    ensures
        answering(names, names[i]) == seq![names[i]],
        answering(names, stem) == seq![names[i]],
{
    reveal_strlit(".boot");
    assert(names[i] != names[i] + ".boot"@) by {
        assert((names[i] + ".boot"@).len() == names[i].len() + 5);
    }
    assert(names[i] != stem) by {
        assert(names[i].len() == stem.len() + 5);
    }
    lemma_answering_single(names, names[i], i);
    lemma_answering_single(names, stem, i);
}

} // verus!
