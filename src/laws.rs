//! Laws of the fold, proved from its definition.
use vstd::prelude::*;

use crate::fold::{
    fold_nodes, fold_step, initial, outline, outline_result, sub_names, test_of, tests_of,
    flushed, Diagnostic, ErrorV, FoldV, SpekError, ASTERISK,
};
use crate::spek::{extend_last, new_module, ItemV, ModuleV, Spek};
use crate::tree::{entry_text, own_text, DocNode, NodeKind};

verus! {

/// A level-1 heading followed directly by a paragraph, and nothing else,
/// gives exactly one module whose doc is the paragraph's text and which has
/// no items.
pub proof fn law_heading_then_paragraph(root: DocNode, title: Seq<char>, doc: Seq<char>)
    requires
        root.children@.len() == 2,
        root.children@[0].kind == NodeKind::Heading(1),
        own_text(root.children@[0]) == Some(title),
        root.children@[1].kind == NodeKind::Paragraph,
        own_text(root.children@[1]) == Some(doc),
    ensures
        outline(root) == Ok::<(Seq<ModuleV>, Seq<Diagnostic>), ErrorV>(
            (seq![new_module(title, Some(doc))], Seq::empty()),
        ),
{
    let cs = root.children@;
    assert(fold_nodes(cs, 0) == Ok::<FoldV, ErrorV>(initial()));
    assert(fold_nodes(cs, 1) == Ok::<FoldV, ErrorV>(
        FoldV { modules: Seq::empty(), pending: Some(title), diagnostics: Seq::empty() },
    ));
    assert(fold_nodes(cs, 2) == Ok::<FoldV, ErrorV>(
        FoldV { modules: seq![new_module(title, Some(doc))], pending: None, diagnostics: Seq::empty() },
    ));
}

/// A well-formed entry of a test list: an item whose first child holds its
/// text, with at most one nested list beneath it whose entries hold text.
pub open spec fn well_formed_entry(n: DocNode) -> bool {
    &&& n.kind is Item
    &&& entry_text(n) is Some
    &&& 1 <= n.children@.len() <= 2
    &&& n.children@.len() == 2 ==> {
        let sub = n.children@[1];
        &&& sub.kind is List
        &&& forall|j: int|
            0 <= j < sub.children@.len() ==> (#[trigger] sub.children@[j]).kind is Item
                && entry_text(sub.children@[j]) is Some
    }
}

/// The texts of the entries of the list nested under `n`, in order (empty
/// when there is none).
pub open spec fn nested_texts(n: DocNode) -> Seq<Seq<char>> {
    if n.children@.len() == 2 {
        let sub = n.children@[1].children@;
        Seq::new(sub.len(), |j: int| entry_text(sub[j])->0)
    } else {
        Seq::empty()
    }
}

proof fn lemma_sub_names_ok(cs: Seq<DocNode>, k: int)
    requires
        0 <= k <= cs.len(),
        forall|j: int|
            0 <= j < cs.len() ==> (#[trigger] cs[j]).kind is Item && entry_text(cs[j]) is Some,
    ensures
        sub_names(cs, k) == Ok::<Seq<Seq<char>>, ErrorV>(
            Seq::new(k as nat, |j: int| entry_text(cs[j])->0),
        ),
    decreases k,
{
    if k > 0 {
        lemma_sub_names_ok(cs, k - 1);
        assert(Seq::new((k - 1) as nat, |j: int| entry_text(cs[j])->0).push(
            entry_text(cs[k - 1])->0,
        ) =~= Seq::new(k as nat, |j: int| entry_text(cs[j])->0));
    } else {
        assert(Seq::new(0, |j: int| entry_text(cs[j])->0) =~= Seq::<Seq<char>>::empty());
    }
}

proof fn lemma_test_of_ok(n: DocNode)
    requires
        well_formed_entry(n),
    ensures
        test_of(n) == Ok::<ItemV, ErrorV>(
            ItemV::Test { name: entry_text(n)->0, subs: nested_texts(n) },
        ),
{
    if n.children@.len() == 2 {
        let sub = n.children@[1];
        lemma_sub_names_ok(sub.children@, sub.children@.len() as int);
    } else {
        assert(nested_texts(n) =~= Seq::<Seq<char>>::empty());
    }
}

/// The tests that the entries `cs` of a list stand for, one per entry.
pub open spec fn entry_tests(cs: Seq<DocNode>) -> Seq<ItemV> {
    Seq::new(
        cs.len(),
        |i: int| ItemV::Test { name: entry_text(cs[i])->0, subs: nested_texts(cs[i]) },
    )
}

proof fn lemma_tests_of_ok(cs: Seq<DocNode>, k: int)
    requires
        0 <= k <= cs.len(),
        forall|i: int| 0 <= i < cs.len() ==> well_formed_entry(#[trigger] cs[i]),
    ensures
        tests_of(cs, k) == Ok::<Seq<ItemV>, ErrorV>(entry_tests(cs.take(k))),
    decreases k,
{
    if k > 0 {
        lemma_tests_of_ok(cs, k - 1);
        lemma_test_of_ok(cs[k - 1]);
        assert(entry_tests(cs.take(k - 1)).push(
            ItemV::Test { name: entry_text(cs[k - 1])->0, subs: nested_texts(cs[k - 1]) },
        ) =~= entry_tests(cs.take(k)));
    } else {
        assert(entry_tests(cs.take(0)) =~= Seq::<ItemV>::empty());
    }
}

/// An asterisk list met after a module's doc paragraph appends one test per
/// top-level entry, in list order, to that module; each test is named by its
/// entry's text, and its subs are the texts of the entry's nested list, in
/// order (none when there is no nested list).
pub proof fn law_asterisk_list_tests(s: FoldV, n: DocNode)
    requires
        s.pending is None,
        s.modules.len() > 0,
        n.kind == NodeKind::List(ASTERISK),
        forall|i: int| 0 <= i < n.children@.len() ==> well_formed_entry(#[trigger] n.children@[i]),
    ensures
        fold_step(s, n) == Ok::<FoldV, ErrorV>(
            FoldV { modules: extend_last(s.modules, entry_tests(n.children@)), ..s },
        ),
        entry_tests(n.children@).len() == n.children@.len(),
{
    lemma_tests_of_ok(n.children@, n.children@.len() as int);
    assert(n.children@.take(n.children@.len() as int) =~= n.children@);
}

/// A list whose bullet is not an asterisk adds no item to any module: it only
/// finalizes a module awaiting its doc, records a diagnostic and lets the
/// fold go on from an idle builder.
pub proof fn law_other_bullet_skipped(s: FoldV, n: DocNode, bullet: u8)
    requires
        n.kind == NodeKind::List(bullet),
        bullet != ASTERISK,
    ensures
        fold_step(s, n) == Ok::<FoldV, ErrorV>(
            FoldV {
                modules: flushed(s),
                pending: None,
                diagnostics: s.diagnostics.push(Diagnostic::SkippedList { bullet }),
            },
        ),
        forall|i: int| 0 <= i < s.modules.len() ==> #[trigger] flushed(s)[i] == s.modules[i],
        forall|i: int|
            s.modules.len() <= i < flushed(s).len() ==> (#[trigger] flushed(s)[i]).items.len()
                == 0,
{
}

/// A paragraph with no heading awaiting its doc becomes a doc item at the end
/// of the last module; every other module is left as it was.
pub proof fn law_floating_paragraph(s: FoldV, n: DocNode, text: Seq<char>)
    requires
        s.pending is None,
        s.modules.len() > 0,
        n.kind == NodeKind::Paragraph,
        own_text(n) == Some(text),
    ensures
        fold_step(s, n) matches Ok(t) && t.modules.len() == s.modules.len() && t.modules.last().items
            == s.modules.last().items.push(ItemV::Doc(text)) && (forall|i: int|
            0 <= i < s.modules.len() - 1 ==> #[trigger] t.modules[i] == s.modules[i]),
{
    assert(seq![ItemV::Doc(text)] =~= Seq::<ItemV>::empty().push(ItemV::Doc(text)));
    assert(s.modules.last().items + seq![ItemV::Doc(text)] =~= s.modules.last().items.push(
        ItemV::Doc(text),
    ));
}

/// Folding the same document twice gives equal trees: the fold depends on the
/// document alone.
pub proof fn law_fold_deterministic(
    root: DocNode,
    first: Result<(Spek, Vec<Diagnostic>), SpekError>,
    second: Result<(Spek, Vec<Diagnostic>), SpekError>,
)
    requires
        outline_result(first) == outline(root),
        outline_result(second) == outline(root),
    ensures
        outline_result(first) == outline_result(second),
{
}

proof fn lemma_paragraphs_no_module(cs: Seq<DocNode>, k: int)
    requires
        1 <= k <= cs.len(),
        forall|i: int| 0 <= i < cs.len() ==> (#[trigger] cs[i]).kind == NodeKind::Paragraph,
        forall|i: int| 0 <= i < cs.len() ==> own_text(#[trigger] cs[i]) is Some,
    ensures
        fold_nodes(cs, k) == Err::<FoldV, ErrorV>(ErrorV::NoModule),
    decreases k,
{
    if k > 1 {
        lemma_paragraphs_no_module(cs, k - 1);
    } else {
        assert(fold_nodes(cs, 0) == Ok::<FoldV, ErrorV>(initial()));
        assert(cs[0].kind == NodeKind::Paragraph);
    }
}

/// A document of one or more paragraphs and no heading is rejected: a doc item
/// has no module to belong to.
pub proof fn law_paragraphs_without_heading(root: DocNode)
    requires
        root.children@.len() > 0,
        forall|i: int|
            0 <= i < root.children@.len() ==> (#[trigger] root.children@[i]).kind
                == NodeKind::Paragraph,
        forall|i: int| 0 <= i < root.children@.len() ==> own_text(#[trigger] root.children@[i]) is Some,
    ensures
        outline(root) == Err::<(Seq<ModuleV>, Seq<Diagnostic>), ErrorV>(ErrorV::NoModule),
{
    lemma_paragraphs_no_module(root.children@, root.children@.len() as int);
}

} // verus!
