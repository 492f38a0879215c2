//! A pacticant with the pacticants it depends on.

use vstd::prelude::*;

verus! {

/// What an [`Item`] stands for.
pub struct ItemView {
    pub id: usize,
    pub name: Seq<char>,
    pub depends_on: Seq<usize>,
}

#[derive(Debug, Clone)]
pub struct Item {
    id: usize,
    name: String,
    depends_on: Vec<usize>,
}

impl View for Item {
    type V = ItemView;

    closed spec fn view(&self) -> ItemView {
        ItemView { id: self.id, name: self.name@, depends_on: self.depends_on@ }
    }
}

impl Default for Item {
    fn default() -> (item: Self)
        ensures
            item@ == (ItemView { id: 0, name: Seq::empty(), depends_on: Seq::empty() }),
    {
        Item { id: 0, name: String::new(), depends_on: Vec::new() }
    }
}

impl Item {
    pub fn new(id: usize, name: String) -> (item: Self)
        ensures
            item@ == (ItemView { id, name: name@, depends_on: Seq::empty() }),
    {
        Self { id, name, depends_on: Vec::new() }
    }

    /// Add a dependency on an other item an returns a new instance
    pub fn add_depends(&self, item_id: usize) -> (item: Self)
        ensures
            item@ == (ItemView { depends_on: self@.depends_on.push(item_id), ..self@ }),
    {
        let mut depends_on: Vec<usize> = Vec::new();
        let mut i: usize = 0;
        while i < self.depends_on.len()
            invariant
                i <= self.depends_on.len(),
                depends_on@ == self.depends_on@.take(i as int),
            decreases self.depends_on.len() - i,
        {
            depends_on.push(self.depends_on[i]);
            assert(depends_on@ =~= self.depends_on@.take(i + 1));
            i += 1;
        }
        assert(self.depends_on@.take(i as int) =~= self.depends_on@);
        depends_on.push(item_id);
        Self { id: self.id, name: self.name.clone(), depends_on }
    }

    /// Returns the id of this [`Item`].
    pub fn id(&self) -> (id: usize)
        ensures
            id == self@.id,
    {
        self.id
    }

    /// Returns a reference to the name of this [`Item`].
    pub fn name(&self) -> (name: &str)
        ensures
            name@ == self@.name,
    {
        self.name.as_str()
    }

    /// Returns a reference to the depends on of this [`Item`].
    pub fn depends_on(&self) -> (depends_on: &[usize])
        ensures
            depends_on@ == self@.depends_on,
    {
        self.depends_on.as_slice()
    }
}

} // verus!
