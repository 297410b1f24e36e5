//! The specification tree: modules, each holding documentation and tests.
use vstd::prelude::*;

use crate::slug::{slug, slug_of};

verus! {

/// What a test item or a doc item is, as plain sequences of characters.
pub ghost enum ItemV {
    Test { name: Seq<char>, subs: Seq<Seq<char>> },
    Doc(Seq<char>),
}

/// What a module is, as plain sequences of characters.
pub ghost struct ModuleV {
    pub filename: Seq<char>,
    pub name: Seq<char>,
    pub doc: Option<Seq<char>>,
    pub items: Seq<ItemV>,
}

/// The characters of each string, in order.
pub open spec fn strings_view(v: Seq<String>) -> Seq<Seq<char>> {
    v.map_values(|s: String| s@)
}

/// The view of an optional string.
pub open spec fn opt_view(o: Option<String>) -> Option<Seq<char>> {
    match o {
        Some(s) => Some(s@),
        None => None,
    }
}

/// One entry of a module: a named test with its sub-names, or free text.
#[derive(Debug)]
pub enum SpekItem {
    Test { name: String, subs: Vec<String> },
    Doc(String),
}

impl View for SpekItem {
    type V = ItemV;

    open spec fn view(&self) -> ItemV {
        match self {
            SpekItem::Test { name, subs } => ItemV::Test { name: name@, subs: strings_view(subs@) },
            SpekItem::Doc(text) => ItemV::Doc(text@),
        }
    }
}

/// The views of a sequence of items.
pub open spec fn items_view(v: Seq<SpekItem>) -> Seq<ItemV> {
    v.map_values(|i: SpekItem| i@)
}

/// One output unit, introduced by a level-1 heading.
#[derive(Debug)]
pub struct SpekModule {
    pub filename: String,
    pub name: String,
    pub doc: Option<String>,
    pub items: Vec<SpekItem>,
}

impl View for SpekModule {
    type V = ModuleV;

    open spec fn view(&self) -> ModuleV {
        ModuleV {
            filename: self.filename@,
            name: self.name@,
            doc: opt_view(self.doc),
            items: items_view(self.items@),
        }
    }
}

/// The views of a sequence of modules.
pub open spec fn modules_view(v: Seq<SpekModule>) -> Seq<ModuleV> {
    v.map_values(|m: SpekModule| m@)
}

/// A fresh module titled `name`, with no items.
pub open spec fn new_module(name: Seq<char>, doc: Option<Seq<char>>) -> ModuleV {
    ModuleV { filename: slug_of(name), name, doc, items: Seq::empty() }
}

impl SpekModule {
    /// A module titled `name`, its slug derived from the title, with no items.
    pub fn new(name: String, doc: Option<String>) -> (r: SpekModule)
        ensures
            r@ == new_module(name@, opt_view(doc)),
    {
        let filename = slug(name.as_str());
        let r = SpekModule { filename, name, doc, items: Vec::new() };
        assert(r@.items =~= Seq::<ItemV>::empty());
        r
    }
}

/// The specification tree: the modules in document order.
#[derive(Debug)]
pub struct Spek {
    pub modules: Vec<SpekModule>,
}

impl View for Spek {
    type V = Seq<ModuleV>;

    open spec fn view(&self) -> Seq<ModuleV> {
        modules_view(self.modules@)
    }
}

/// The modules `ms` with `items` appended to the last one.
pub open spec fn extend_last(ms: Seq<ModuleV>, items: Seq<ItemV>) -> Seq<ModuleV> {
    let last = ms.last();
    ms.update(ms.len() - 1, ModuleV { items: last.items + items, ..last })
}

impl Spek {
    /// A tree with no modules.
    pub fn new() -> (r: Spek)
        ensures
            r@ == Seq::<ModuleV>::empty(),
    {
        Spek { modules: Vec::new() }
    }

    /// Appends `items`, in order, to the last module.
    pub fn extend(self, items: Vec<SpekItem>) -> (r: Spek)
        requires
            self@.len() > 0,
        ensures
            r@ == extend_last(self@, items_view(items@)),
    {
        let mut spek = self;
        let mut items = items;
        let ghost new_items = items@;
        let mut m = spek.modules.pop().unwrap();
        let ghost old_items = m.items@;
        m.items.append(&mut items);
        assert(items_view(m.items@) =~= items_view(old_items) + items_view(new_items));
        spek.modules.push(m);
        assert(spek@ =~= extend_last(self@, items_view(new_items)));
        spek
    }

    /// Appends `item` to the last module.
    pub fn add(self, item: SpekItem) -> (r: Spek)
        requires
            self@.len() > 0,
        ensures
            r@ == extend_last(self@, seq![item@]),
    {
        let items = vec![item];
        assert(items_view(items@) =~= seq![item@]);
        self.extend(items)
    }

    /// Appends `module` after the existing modules.
    pub fn add_module(self, module: SpekModule) -> (r: Spek)
        ensures
            r@ == self@.push(module@),
    {
        let mut spek = self;
        spek.modules.push(module);
        assert(spek@ =~= self@.push(module@));
        spek
    }
}

} // verus!
