use vstd::prelude::*;

use std::rc::Rc;
use std::slice::Iter;

use crate::resource_map::ResourceMap;
use vstd::std_specs::iter::IteratorSpec;

verus! {

/// How an ability in a list connects to the next one.
#[derive(Debug, Clone, Copy, PartialEq, Eq, Structural)]
pub enum Connect {
    Up,
    LongUp,
    Down,
    LongDown,
    Straight,
    Straight2x,
    Straight3x,
}

/// An ability of a list, with where it is drawn and how it connects.
pub struct Entry<A, P> {
    pub ability: Rc<A>,
    pub position: P,
    pub connect: Vec<Connect>,
}

/// An entry as read from a resource file: the id of the ability.
pub struct EntryBuilder<P> {
    pub id: String,
    pub position: P,
    pub connect: Option<Vec<Connect>>,
}

/// An ability list as read from a resource file.
pub struct AbilityListBuilder<P> {
    pub id: String,
    /// The id of the background image.
    pub background: String,
    pub abilities: Vec<EntryBuilder<P>>,
}

/// Why an ability list could not be created.
#[derive(Debug, PartialEq, Eq)]
pub enum AbilityListError {
    /// The list names an ability that the module does not have.
    MissingAbility { list: String, ability: String },
    /// The list's background image is not among the images.
    MissingBackground { list: String, background: String },
}

/// A list of abilities laid out over a background image.
pub struct AbilityList<A, I, P> {
    pub id: String,
    pub background: Rc<I>,
    entries: Vec<Entry<A, P>>,
}

/// Calls `Rc::clone`, which returns a new pointer to the same allocation: the
/// contract claims the result is the same value.
#[verifier::external_body]
fn rc_clone<T>(rc: &Rc<T>) -> (res: Rc<T>)
    ensures
        res == *rc,
{
    Rc::clone(rc)
}

/// The first entry of `es` that names no ability of `abilities` is at `i`.
pub open spec fn first_missing<P, A>(
    es: Seq<EntryBuilder<P>>,
    abilities: Map<Seq<char>, Rc<A>>,
    i: int,
) -> bool {
    &&& 0 <= i < es.len()
    &&& !abilities.contains_key(es[i].id@)
    &&& forall|j: int| 0 <= j < i ==> abilities.contains_key(#[trigger] es[j].id@)
}

/// `e` is the entry that `b` becomes once its ability is looked up: no
/// connections stand for none listed.
pub open spec fn resolved_entry<A, P>(
    e: Entry<A, P>,
    b: EntryBuilder<P>,
    abilities: Map<Seq<char>, Rc<A>>,
) -> bool {
    &&& e.ability == abilities[b.id@]
    &&& e.position == b.position
    &&& e.connect@ == match b.connect {
        Some(c) => c@,
        None => Seq::<Connect>::empty(),
    }
}

impl<P> AbilityListBuilder<P> {
    /// Every entry names an ability of `abilities`.
    pub open spec fn abilities_found<A>(&self, abilities: Map<Seq<char>, Rc<A>>) -> bool {
        forall|i: int|
            0 <= i < self.abilities@.len() ==> abilities.contains_key(#[trigger] self.abilities@[i].id@)
    }

    /// The error the list is refused with: for its first missing ability,
    /// else for its missing background.
    pub open spec fn error<A>(&self, abilities: Map<Seq<char>, Rc<A>>) -> AbilityListError {
        if !self.abilities_found(abilities) {
            let i = choose|i: int| first_missing(self.abilities@, abilities, i);
            AbilityListError::MissingAbility { list: self.id, ability: self.abilities@[i].id }
        } else {
            AbilityListError::MissingBackground { list: self.id, background: self.background }
        }
    }

    pub fn owned_id(&self) -> (id: String)
        ensures
            id@ == self.id@,
    {
        self.id.clone()
    }
}

impl<A, I, P> AbilityList<A, I, P> {
    pub closed spec fn list_id(&self) -> String {
        self.id
    }

    pub closed spec fn background_image(&self) -> Rc<I> {
        self.background
    }

    /// The entries, in the order of the builder.
    pub closed spec fn entries(&self) -> Seq<Entry<A, P>> {
        self.entries@
    }

    /// Builds the list of `builder`, looking each ability up in `abilities`
    /// and the background in `images`.
    pub fn new(
        builder: AbilityListBuilder<P>,
        abilities: &ResourceMap<Rc<A>>,
        images: &ResourceMap<Rc<I>>,
    ) -> (r: Result<AbilityList<A, I, P>, AbilityListError>)
        requires
            abilities.wf(),
            images.wf(),
        ensures
            r is Ok <==> builder.abilities_found(abilities@) && images@.contains_key(
                builder.background@,
            ),
            r matches Err(e) ==> e == builder.error(abilities@),
            r matches Ok(l) ==> {
                &&& l.list_id() == builder.id
                &&& l.background_image() == images@[builder.background@]
                &&& l.entries().len() == builder.abilities@.len()
                &&& forall|i: int|
                    0 <= i < l.entries().len() ==> resolved_entry(
                        #[trigger] l.entries()[i],
                        builder.abilities@[i],
                        abilities@,
                    )
            },
    {
        let ghost src = builder.abilities@;
        let mut entries: Vec<Entry<A, P>> = Vec::new();
        for entry in it: builder.abilities.into_iter()
            invariant
                src == builder.abilities@,
                it.seq() == src,
                abilities.wf(),
                entries@.len() == it.index(),
                forall|j: int| 0 <= j < it.index() ==> abilities@.contains_key(#[trigger] src[j].id@),
                forall|j: int|
                    0 <= j < it.index() ==> resolved_entry(#[trigger] entries@[j], src[j], abilities@),
        {
            let ability = match abilities.get(&entry.id) {
                None => {
                    proof {
                        let i = it.index() as int;
                        assert(first_missing(src, abilities@, i));
                        let k = choose|k: int| first_missing(src, abilities@, k);
                        if k < i {
                            assert(abilities@.contains_key(src[k].id@));
                        }
                        if i < k {
                            assert(abilities@.contains_key(src[i].id@));
                        }
                    }
                    return Err(AbilityListError::MissingAbility { list: builder.id, ability: entry.id });
                },
                Some(ability) => rc_clone(ability),
            };
            let connect = match entry.connect {
                Some(c) => c,
                None => Vec::new(),
            };
            entries.push(Entry { ability, position: entry.position, connect });
        }

        let background = match images.get(&builder.background) {
            None => {
                return Err(
                    AbilityListError::MissingBackground { list: builder.id, background: builder.background },
                );
            },
            Some(image) => rc_clone(image),
        };

        Ok(AbilityList { id: builder.id, background, entries })
    }

    /// The entries, in order.
    pub fn iter<'a>(&'a self) -> (it: Iter<'a, Entry<A, P>>)
        ensures
            it.remaining() == self.entries().map_values(|e: Entry<A, P>| &e),
    {
        self.entries.iter()
    }
}

} // verus!
