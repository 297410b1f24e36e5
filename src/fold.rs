//! The fold: one pass over the document's top-level nodes that builds the
//! specification tree, carrying what is still pending in a `Builder`.
use vstd::prelude::*;

use crate::spek::{
    extend_last, items_view, new_module, opt_view, strings_view, ItemV, ModuleV, Spek, SpekItem,
    SpekModule,
};
use crate::tree::{entry_text, kind_label, own_text, DocNode, NodeKind};

verus! {

/// The byte of the bullet that marks a list of tests.
pub const ASTERISK: u8 = 42;

/// Why a document cannot be folded.
#[derive(Debug)]
pub enum SpekError {
    /// A heading of a level other than 1.
    UnsupportedHeading { level: u8 },
    /// Documentation or tests appear before any module was introduced.
    NoModule,
    /// A node whose text was needed does not start with a text run.
    MissingText,
    /// A test entry holds more than one nested segment.
    TooManySegments,
    /// A node of a kind that has no meaning where it stands.
    Unsupported { kind: String },
    /// The parser's nodes do not form one tree.
    Malformed,
}

/// An error, as plain values.
pub ghost enum ErrorV {
    UnsupportedHeading(u8),
    NoModule,
    MissingText,
    TooManySegments,
    Unsupported(Seq<char>),
    Malformed,
}

impl View for SpekError {
    type V = ErrorV;

    open spec fn view(&self) -> ErrorV {
        match self {
            SpekError::UnsupportedHeading { level } => ErrorV::UnsupportedHeading(*level),
            SpekError::NoModule => ErrorV::NoModule,
            SpekError::MissingText => ErrorV::MissingText,
            SpekError::TooManySegments => ErrorV::TooManySegments,
            SpekError::Unsupported { kind } => ErrorV::Unsupported(kind@),
            SpekError::Malformed => ErrorV::Malformed,
        }
    }
}

/// A construct that was skipped without failing the fold.
#[derive(Debug, Clone, Copy, PartialEq, Eq)]
pub enum Diagnostic {
    /// A list whose bullet is not an asterisk, with the byte of its bullet.
    SkippedList { bullet: u8 },
}

/// The error for a node of an unsupported kind.
pub open spec fn unsupported(k: NodeKind) -> ErrorV {
    ErrorV::Unsupported(kind_label(k))
}

/// The texts of the first `k` entries of a nested list. Each entry gives its
/// own text only: a list nested deeper still is not read.
pub open spec fn sub_names(cs: Seq<DocNode>, k: int) -> Result<Seq<Seq<char>>, ErrorV>
    decreases k,
{
    if k <= 0 {
        Ok(Seq::empty())
    } else {
        match sub_names(cs, k - 1) {
            Err(e) => Err(e),
            Ok(names) => if !(cs[k - 1].kind is Item) {
                Err(unsupported(cs[k - 1].kind))
            } else {
                match entry_text(cs[k - 1]) {
                    None => Err(ErrorV::MissingText),
                    Some(t) => Ok(names.push(t)),
                }
            },
        }
    }
}

/// The test that one entry of an asterisk list becomes: its own text is the
/// name, and the entries of a nested list beneath it are the subs.
pub open spec fn test_of(n: DocNode) -> Result<ItemV, ErrorV> {
    if !(n.kind is Item) {
        Err(unsupported(n.kind))
    } else {
        match entry_text(n) {
            None => Err(ErrorV::MissingText),
            Some(name) => if n.children@.len() == 1 {
                Ok(ItemV::Test { name, subs: Seq::empty() })
            } else if n.children@.len() > 2 {
                Err(ErrorV::TooManySegments)
            } else {
                let sub = n.children@[1];
                if sub.kind is List {
                    match sub_names(sub.children@, sub.children@.len() as int) {
                        Err(e) => Err(e),
                        Ok(subs) => Ok(ItemV::Test { name, subs }),
                    }
                } else {
                    Err(unsupported(sub.kind))
                }
            },
        }
    }
}

/// The tests of the first `k` entries of an asterisk list.
pub open spec fn tests_of(cs: Seq<DocNode>, k: int) -> Result<Seq<ItemV>, ErrorV>
    decreases k,
{
    if k <= 0 {
        Ok(Seq::empty())
    } else {
        match tests_of(cs, k - 1) {
            Err(e) => Err(e),
            Ok(ts) => match test_of(cs[k - 1]) {
                Err(e) => Err(e),
                Ok(t) => Ok(ts.push(t)),
            },
        }
    }
}

/// The state of the fold between two nodes, as plain values.
pub ghost struct FoldV {
    pub modules: Seq<ModuleV>,
    /// The title of a module whose heading was seen and that awaits its doc.
    pub pending: Option<Seq<char>>,
    pub diagnostics: Seq<Diagnostic>,
}

/// The modules, with the pending one (if any) finalized without a doc.
pub open spec fn flushed(s: FoldV) -> Seq<ModuleV> {
    match s.pending {
        Some(title) => s.modules.push(new_module(title, None)),
        None => s.modules,
    }
}

/// One step of the fold: the state after node `n`.
pub open spec fn fold_step(s: FoldV, n: DocNode) -> Result<FoldV, ErrorV> {
    match n.kind {
        NodeKind::Heading(level) => if level != 1 {
            Err(ErrorV::UnsupportedHeading(level))
        } else {
            match own_text(n) {
                None => Err(ErrorV::MissingText),
                Some(t) => Ok(FoldV { modules: flushed(s), pending: Some(t), ..s }),
            }
        },
        NodeKind::Paragraph => match own_text(n) {
            None => Err(ErrorV::MissingText),
            Some(t) => match s.pending {
                Some(title) => Ok(
                    FoldV { modules: s.modules.push(new_module(title, Some(t))), pending: None, ..s },
                ),
                None => if s.modules.len() == 0 {
                    Err(ErrorV::NoModule)
                } else {
                    Ok(FoldV { modules: extend_last(s.modules, seq![ItemV::Doc(t)]), ..s })
                },
            },
        },
        NodeKind::List(bullet) => if bullet == ASTERISK {
            if flushed(s).len() == 0 {
                Err(ErrorV::NoModule)
            } else {
                match tests_of(n.children@, n.children@.len() as int) {
                    Err(e) => Err(e),
                    Ok(ts) => Ok(
                        FoldV { modules: extend_last(flushed(s), ts), pending: None, ..s },
                    ),
                }
            }
        } else {
            Ok(
                FoldV {
                    modules: flushed(s),
                    pending: None,
                    diagnostics: s.diagnostics.push(Diagnostic::SkippedList { bullet }),
                },
            )
        },
        _ => Err(unsupported(n.kind)),
    }
}

/// The state at the start of a document.
pub open spec fn initial() -> FoldV {
    FoldV { modules: Seq::empty(), pending: None, diagnostics: Seq::empty() }
}

/// The state after the first `k` of the nodes `cs`.
pub open spec fn fold_nodes(cs: Seq<DocNode>, k: int) -> Result<FoldV, ErrorV>
    decreases k,
{
    if k <= 0 {
        Ok(initial())
    } else {
        match fold_nodes(cs, k - 1) {
            Err(e) => Err(e),
            Ok(s) => fold_step(s, cs[k - 1]),
        }
    }
}

/// What a document folds to: its modules, with a module still awaiting its
/// doc at the end finalized without one, and the diagnostics.
pub open spec fn outline(root: DocNode) -> Result<(Seq<ModuleV>, Seq<Diagnostic>), ErrorV> {
    match fold_nodes(root.children@, root.children@.len() as int) {
        Err(e) => Err(e),
        Ok(s) => Ok((flushed(s), s.diagnostics)),
    }
}

/// The first error of a prefix stays the error of every longer prefix.
proof fn lemma_sub_names_err(cs: Seq<DocNode>, k: int, j: int)
    requires
        k <= j,
        sub_names(cs, k) is Err,
    ensures
        sub_names(cs, j) == sub_names(cs, k),
    decreases j - k,
{
    if k < j {
        lemma_sub_names_err(cs, k, j - 1);
    }
}

/// The first error of a prefix stays the error of every longer prefix.
proof fn lemma_tests_of_err(cs: Seq<DocNode>, k: int, j: int)
    requires
        k <= j,
        tests_of(cs, k) is Err,
    ensures
        tests_of(cs, j) == tests_of(cs, k),
    decreases j - k,
{
    if k < j {
        lemma_tests_of_err(cs, k, j - 1);
    }
}

/// The first error of a prefix stays the error of every longer prefix.
proof fn lemma_fold_nodes_err(cs: Seq<DocNode>, k: int, j: int)
    requires
        k <= j,
        fold_nodes(cs, k) is Err,
    ensures
        fold_nodes(cs, j) == fold_nodes(cs, k),
    decreases j - k,
{
    if k < j {
        lemma_fold_nodes_err(cs, k, j - 1);
    }
}

/// The names of a nested list's entries, or the first error among them.
fn sub_list_names(list: &DocNode) -> (r: Result<Vec<String>, SpekError>)
    ensures
        r matches Ok(v) ==> sub_names(list.children@, list.children@.len() as int) == Ok::<
            Seq<Seq<char>>,
            ErrorV,
        >(strings_view(v@)),
        r matches Err(e) ==> sub_names(list.children@, list.children@.len() as int) == Err::<
            Seq<Seq<char>>,
            ErrorV,
        >(e@),
{
    let cs = &list.children;
    let mut names: Vec<String> = Vec::new();
    let mut i: usize = 0;
    assert(strings_view(names@) =~= Seq::<Seq<char>>::empty());
    while i < cs.len()
        invariant
            cs@ == list.children@,
            i <= cs@.len(),
            sub_names(cs@, i as int) == Ok::<Seq<Seq<char>>, ErrorV>(strings_view(names@)),
        decreases cs@.len() - i,
    {
        let c = &cs[i];
        if !matches!(c.kind, NodeKind::Item) {
            let e = SpekError::Unsupported { kind: c.kind.label() };
            proof {
                assert(sub_names(cs@, i + 1) == Err::<Seq<Seq<char>>, ErrorV>(e@));
                lemma_sub_names_err(cs@, i + 1, cs@.len() as int);
            }
            return Err(e);
        }
        match c.entry_text() {
            None => {
                proof {
                    assert(sub_names(cs@, i + 1) == Err::<Seq<Seq<char>>, ErrorV>(ErrorV::MissingText));
                    lemma_sub_names_err(cs@, i + 1, cs@.len() as int);
                }
                return Err(SpekError::MissingText);
            },
            Some(t) => {
                let ghost prev = names@;
                names.push(t);
                assert(strings_view(names@) =~= strings_view(prev).push(t@));
            },
        }
        i = i + 1;
    }
    Ok(names)
}

/// The item view of a result, or its error.
pub open spec fn item_result(r: Result<SpekItem, SpekError>) -> Result<ItemV, ErrorV> {
    match r {
        Ok(item) => Ok(item@),
        Err(e) => Err(e@),
    }
}

/// The test that one entry of an asterisk list becomes.
fn test_item(n: &DocNode) -> (r: Result<SpekItem, SpekError>)
    ensures
        item_result(r) == test_of(*n),
{
    if !matches!(n.kind, NodeKind::Item) {
        return Err(SpekError::Unsupported { kind: n.kind.label() });
    }
    let name = match n.entry_text() {
        None => {
            return Err(SpekError::MissingText);
        },
        Some(t) => t,
    };
    if n.children.len() == 1 {
        let subs: Vec<String> = Vec::new();
        assert(strings_view(subs@) =~= Seq::<Seq<char>>::empty());
        return Ok(SpekItem::Test { name, subs });
    }
    if n.children.len() > 2 {
        return Err(SpekError::TooManySegments);
    }
    let sub = &n.children[1];
    if !matches!(sub.kind, NodeKind::List(_)) {
        return Err(SpekError::Unsupported { kind: sub.kind.label() });
    }
    match sub_list_names(sub) {
        Err(e) => Err(e),
        Ok(subs) => Ok(SpekItem::Test { name, subs }),
    }
}

/// The tests of an asterisk list, one per entry in order, or the first error.
fn list_tests(list: &DocNode) -> (r: Result<Vec<SpekItem>, SpekError>)
    ensures
        r matches Ok(v) ==> tests_of(list.children@, list.children@.len() as int) == Ok::<
            Seq<ItemV>,
            ErrorV,
        >(items_view(v@)),
        r matches Err(e) ==> tests_of(list.children@, list.children@.len() as int) == Err::<
            Seq<ItemV>,
            ErrorV,
        >(e@),
{
    let cs = &list.children;
    let mut tests: Vec<SpekItem> = Vec::new();
    let mut i: usize = 0;
    assert(items_view(tests@) =~= Seq::<ItemV>::empty());
    while i < cs.len()
        invariant
            cs@ == list.children@,
            i <= cs@.len(),
            tests_of(cs@, i as int) == Ok::<Seq<ItemV>, ErrorV>(items_view(tests@)),
        decreases cs@.len() - i,
    {
        match test_item(&cs[i]) {
            Err(e) => {
                proof {
                    assert(tests_of(cs@, i + 1) == Err::<Seq<ItemV>, ErrorV>(e@));
                    lemma_tests_of_err(cs@, i + 1, cs@.len() as int);
                }
                return Err(e);
            },
            Ok(t) => {
                let ghost prev = tests@;
                tests.push(t);
                assert(items_view(tests@) =~= items_view(prev).push(t@));
            },
        }
        i = i + 1;
    }
    Ok(tests)
}

/// What the fold is building while it walks the document.
#[derive(Debug)]
pub enum Builder {
    /// Nothing is pending.
    Idle,
    /// A heading was seen: the next paragraph, if it comes first, is the
    /// module's doc.
    AwaitingModuleDoc { title: String },
}

/// The pending module title of a builder.
pub open spec fn pending_of(b: Builder) -> Option<Seq<char>> {
    match b {
        Builder::Idle => None,
        Builder::AwaitingModuleDoc { title } => Some(title@),
    }
}

impl Builder {
    /// The pending module, with `doc` as its documentation; `None` when idle.
    pub fn finish(self, doc: Option<String>) -> (r: Option<SpekModule>)
        ensures
            pending_of(self) is None ==> r is None,
            pending_of(self) matches Some(title) ==> r matches Some(m) && m@ == new_module(
                title,
                opt_view(doc),
            ),
    {
        match self {
            Builder::Idle => None,
            Builder::AwaitingModuleDoc { title } => Some(SpekModule::new(title, doc)),
        }
    }
}

/// The fold's accumulator and builder, with the diagnostics so far.
#[derive(Debug)]
pub struct State {
    pub spek: Spek,
    pub builder: Builder,
    pub diagnostics: Vec<Diagnostic>,
}

impl View for State {
    type V = FoldV;

    open spec fn view(&self) -> FoldV {
        FoldV { modules: self.spek@, pending: pending_of(self.builder), diagnostics: self.diagnostics@ }
    }
}

/// The state view of a result, or its error.
pub open spec fn state_result(r: Result<State, SpekError>) -> Result<FoldV, ErrorV> {
    match r {
        Ok(s) => Ok(s@),
        Err(e) => Err(e@),
    }
}

impl State {
    /// The state at the start of a document.
    pub fn new() -> (r: State)
        ensures
            r@ == initial(),
    {
        let r = State { spek: Spek::new(), builder: Builder::Idle, diagnostics: Vec::new() };
        assert(r@.diagnostics =~= Seq::<Diagnostic>::empty());
        r
    }

    /// Finalizes the pending module, if any, without a doc.
    fn finish_builder(self) -> (r: State)
        ensures
            r@ == (FoldV { modules: flushed(self@), pending: None, ..self@ }),
    {
        let State { spek, builder, diagnostics } = self;
        match builder.finish(None) {
            Some(m) => State { spek: spek.add_module(m), builder: Builder::Idle, diagnostics },
            None => State { spek, builder: Builder::Idle, diagnostics },
        }
    }

    /// One step of the fold over a top-level node.
    fn fold_node(self, node: &DocNode) -> (r: Result<State, SpekError>)
        ensures
            state_result(r) == fold_step(self@, *node),
    {
        match &node.kind {
            NodeKind::Heading(level) => {
                if *level != 1 {
                    return Err(SpekError::UnsupportedHeading { level: *level });
                }
                match node.own_text() {
                    None => Err(SpekError::MissingText),
                    Some(title) => {
                        let s = self.finish_builder();
                        Ok(
                            State {
                                spek: s.spek,
                                builder: Builder::AwaitingModuleDoc { title },
                                diagnostics: s.diagnostics,
                            },
                        )
                    },
                }
            },
            NodeKind::Paragraph => {
                let text = match node.own_text() {
                    None => {
                        return Err(SpekError::MissingText);
                    },
                    Some(t) => t,
                };
                let State { spek, builder, diagnostics } = self;
                match builder {
                    Builder::AwaitingModuleDoc { title } => {
                        let m = SpekModule::new(title, Some(text));
                        Ok(State { spek: spek.add_module(m), builder: Builder::Idle, diagnostics })
                    },
                    Builder::Idle => {
                        if spek.modules.len() == 0 {
                            return Err(SpekError::NoModule);
                        }
                        let spek = spek.add(SpekItem::Doc(text));
                        Ok(State { spek, builder: Builder::Idle, diagnostics })
                    },
                }
            },
            NodeKind::List(bullet) => {
                let s = self.finish_builder();
                if *bullet == ASTERISK {
                    if s.spek.modules.len() == 0 {
                        return Err(SpekError::NoModule);
                    }
                    match list_tests(node) {
                        Err(e) => Err(e),
                        Ok(tests) => Ok(
                            State {
                                spek: s.spek.extend(tests),
                                builder: Builder::Idle,
                                diagnostics: s.diagnostics,
                            },
                        ),
                    }
                } else {
                    let mut diagnostics = s.diagnostics;
                    diagnostics.push(Diagnostic::SkippedList { bullet: *bullet });
                    Ok(State { spek: s.spek, builder: Builder::Idle, diagnostics })
                }
            },
            _ => Err(SpekError::Unsupported { kind: node.kind.label() }),
        }
    }
}

/// The view of a folded document, or its error.
pub open spec fn outline_result(r: Result<(Spek, Vec<Diagnostic>), SpekError>) -> Result<
    (Seq<ModuleV>, Seq<Diagnostic>),
    ErrorV,
> {
    match r {
        Ok((spek, diags)) => Ok((spek@, diags@)),
        Err(e) => Err(e@),
    }
}

impl Spek {
    /// Folds the top-level nodes of `root`, in order, into a specification
    /// tree, with the diagnostics of what was skipped.
    pub fn from_document(root: &DocNode) -> (r: Result<(Spek, Vec<Diagnostic>), SpekError>)
        ensures
            outline_result(r) == outline(*root),
    {
        let cs = &root.children;
        let mut state = State::new();
        let mut i: usize = 0;
        while i < cs.len()
            invariant
                cs@ == root.children@,
                i <= cs@.len(),
                fold_nodes(cs@, i as int) == Ok::<FoldV, ErrorV>(state@),
            decreases cs@.len() - i,
        {
            match state.fold_node(&cs[i]) {
                Err(e) => {
                    proof {
                        assert(fold_nodes(cs@, i + 1) == Err::<FoldV, ErrorV>(e@));
                        lemma_fold_nodes_err(cs@, i + 1, cs@.len() as int);
                    }
                    return Err(e);
                },
                Ok(next) => {
                    state = next;
                },
            }
            i = i + 1;
        }
        let done = state.finish_builder();
        Ok((done.spek, done.diagnostics))
    }
}

} // verus!
