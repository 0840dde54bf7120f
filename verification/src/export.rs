//! SVG export of canvas notes: which items an export covers, whether they can be written
//! as SVG, and escaping text for SVG.  Writing coordinates into the markup stays with the
//! shell, which holds the geometry.

use crate::model::{
    svg_compatibility_of, CanvasItemKind, IncompatibleExportReason, SelectionTarget,
    SvgCompatibility,
};
use crate::text::{
    lemma_name_le_antisymmetric, lemma_name_le_reflexive, lemma_name_le_total,
    lemma_name_le_transitive, name_le, names_in_order, push_str_chars, str_chars,
    string_from_chars, string_views,
};
use vstd::prelude::*;

verus! {

broadcast use vstd::string::group_string_axioms;

/// Checks canvas items for SVG compatibility.
#[derive(Debug)]
pub struct CanvasExportService;

/// The reason of the first item that cannot be exported, if any.
pub open spec fn first_incompatibility_of(kinds: Seq<CanvasItemKind>) -> Option<
    IncompatibleExportReason,
>
    decreases kinds.len(),
{
    if kinds.len() == 0 {
        None
    } else {
        match svg_compatibility_of(kinds[0]) {
            SvgCompatibility::Incompatible(reason) => Some(reason),
            SvgCompatibility::Compatible => first_incompatibility_of(kinds.drop_first()),
        }
    }
}

impl CanvasExportService {
    /// Why the items cannot be exported as SVG: the reason of the first item that cannot.
    pub fn first_incompatibility(&self, items: &[CanvasItemKind]) -> (r: Option<
        IncompatibleExportReason,
    >)
        ensures
            r == first_incompatibility_of(items@),
    {
        let mut i: usize = 0;
        assert(items@.skip(0) == items@);
        while i < items.len()
            invariant
                i <= items.len(),
                first_incompatibility_of(items@) == first_incompatibility_of(items@.skip(i as int)),
            decreases items.len() - i,
        {
            assert(items@.skip(i as int)[0] == items@[i as int]);
            assert(items@.skip(i as int).drop_first() == items@.skip(i + 1));
            match items[i].svg_compatibility() {
                SvgCompatibility::Incompatible(reason) => return Some(reason),
                SvgCompatibility::Compatible => {},
            }
            i = i + 1;
        }
        assert(items@.skip(i as int) =~= Seq::<CanvasItemKind>::empty());
        None
    }
}

// ---------------------------------------------------------------------------
// Escaping
// ---------------------------------------------------------------------------

/// The SVG text form of one character: `&`, `<` and `>` become entities.
pub open spec fn escape_char(c: char) -> Seq<char> {
    if c == '&' {
        "&amp;"@
    } else if c == '<' {
        "&lt;"@
    } else if c == '>' {
        "&gt;"@
    } else {
        seq![c]
    }
}

/// Text escaped for an SVG `<text>` element.  (Replacing `&` first, then `<`, then `>`,
/// as the replacement passes do, escapes each character on its own.)
pub open spec fn escaped_svg_text(s: Seq<char>) -> Seq<char>
    decreases s.len(),
{
    if s.len() == 0 {
        seq![]
    } else {
        escaped_svg_text(s.drop_last()) + escape_char(s.last())
    }
}

/// Escapes `&`, `<` and `>` for SVG text.
pub fn escape_svg_text(text: &str) -> (out: String)
    ensures
        out@ == escaped_svg_text(text@),
{
    let chars = str_chars(text);
    let mut v: Vec<char> = Vec::new();
    let mut i: usize = 0;
    while i < chars.len()
        invariant
            i <= chars.len(),
            chars@ == text@,
            v@ == escaped_svg_text(chars@.take(i as int)),
        decreases chars.len() - i,
    {
        let c = chars[i];
        assert(chars@.take(i + 1).drop_last() == chars@.take(i as int));
        assert(chars@.take(i + 1).last() == c);
        if c == '&' {
            push_str_chars(&mut v, "&amp;");
        } else if c == '<' {
            push_str_chars(&mut v, "&lt;");
        } else if c == '>' {
            push_str_chars(&mut v, "&gt;");
        } else {
            v.push(c);
            assert(v@ =~= escaped_svg_text(chars@.take(i as int)) + seq![c]);
        }
        i = i + 1;
    }
    assert(chars@.take(chars.len() as int) == chars@);
    string_from_chars(&v)
}

// ---------------------------------------------------------------------------
// Export targets
// ---------------------------------------------------------------------------

/// The indices of the items whose id is among `selected_ids`, in item order.
pub open spec fn selected_indices(selected_ids: Seq<Seq<char>>, item_ids: Seq<Seq<char>>) -> Seq<
    int,
>
    decreases item_ids.len(),
{
    if item_ids.len() == 0 {
        seq![]
    } else {
        let prev = selected_indices(selected_ids, item_ids.drop_last());
        if selected_ids.contains(item_ids.last()) {
            prev.push(item_ids.len() - 1)
        } else {
            prev
        }
    }
}

/// The items an export covers: the selected items when the selection names items and
/// some of them exist, else every item.
pub open spec fn export_target_indices(selection: SelectionTarget, item_ids: Seq<Seq<char>>) -> Seq<
    int,
> {
    let selected = match selection {
        SelectionTarget::ItemIds(ids) => if ids@.len() > 0 {
            selected_indices(string_views(ids@), item_ids)
        } else {
            seq![]
        },
        _ => seq![],
    };
    if selected.len() > 0 {
        selected
    } else {
        Seq::new(item_ids.len(), |i: int| i)
    }
}

/// The kinds at the given indices.
pub open spec fn kinds_at(kinds: Seq<CanvasItemKind>, indices: Seq<int>) -> Seq<CanvasItemKind> {
    Seq::new(indices.len(), |i: int| kinds[indices[i]])
}

/// The debug name of an incompatibility reason.
pub open spec fn reason_name(reason: IncompatibleExportReason) -> Seq<char> {
    match reason {
        IncompatibleExportReason::RasterContent => "RasterContent"@,
        IncompatibleExportReason::ImportedPdfPage => "ImportedPdfPage"@,
        IncompatibleExportReason::MixedUnsupportedSelection => "MixedUnsupportedSelection"@,
    }
}

/// The decision on a canvas SVG export: a target path is needed, there must be items to
/// export, and all of them must be vector content; then the export covers the target
/// items.
pub open spec fn canvas_export_decision(
    export_path: Seq<char>,
    selection: SelectionTarget,
    item_ids: Seq<Seq<char>>,
    kinds: Seq<CanvasItemKind>,
) -> Result<Seq<int>, Seq<char>> {
    let targets = export_target_indices(selection, item_ids);
    if crate::text::trim(export_path).len() == 0 {
        Err("SVG export needs a target file path."@)
    } else if targets.len() == 0 {
        Err("No canvas items are available for export."@)
    } else if first_incompatibility_of(kinds_at(kinds, targets)) is Some {
        Err(
            "SVG export unavailable for this target: "@ + reason_name(
                first_incompatibility_of(kinds_at(kinds, targets))->0,
            ) + "."@,
        )
    } else {
        Ok(targets)
    }
}

/// The indices as a sequence of integers.
pub open spec fn index_view(v: Seq<usize>) -> Seq<int> {
    Seq::new(v.len(), |i: int| v[i] as int)
}

/// Whether `ids` holds `id`.
fn ids_contain(ids: &Vec<String>, id: &String) -> (b: bool)
    ensures
        b == string_views(ids@).contains(id@),
{
    let mut j: usize = 0;
    while j < ids.len()
        invariant
            j <= ids.len(),
            forall|k: int| 0 <= k < j ==> string_views(ids@)[k] != id@,
        decreases ids.len() - j,
    {
        if ids[j] == *id {
            assert(string_views(ids@)[j as int] == id@);
            return true;
        }
        j = j + 1;
    }
    false
}

/// Each id sorts strictly before every id after it: no id twice, in code point order.
pub open spec fn ids_strictly_sorted(ids: Seq<Seq<char>>) -> bool {
    forall|i: int, j: int|
        0 <= i < j < ids.len() ==> #[trigger] name_le(ids[i], ids[j]) && ids[i] != ids[j]
}

/// The ids of a chosen set of items in canonical form: each id once, in code point
/// order (the order of `String`).
pub fn normalized_item_selection(ids: &Vec<String>) -> (out: Vec<String>)
    ensures
        ids_strictly_sorted(string_views(out@)),
        string_views(out@).to_set() == string_views(ids@).to_set(),
{
    let ghost all = string_views(ids@);
    let mut out: Vec<String> = Vec::new();
    let mut i: usize = 0;
    while i < ids.len()
        invariant
            i <= ids.len(),
            all == string_views(ids@),
            ids_strictly_sorted(string_views(out@)),
            forall|x: Seq<char>| #[trigger]
                string_views(out@).contains(x) <==> all.take(i as int).contains(x),
        decreases ids.len() - i,
    {
        let id = &ids[i];
        assert(all.take(i + 1) =~= all.take(i as int).push(id@));
        let mut pos: usize = 0;
        while pos < out.len() && names_in_order(out[pos].as_str(), id.as_str())
            invariant
                pos <= out.len(),
                forall|k: int| 0 <= k < pos ==> name_le(#[trigger] out@[k]@, id@),
            decreases out.len() - pos,
        {
            pos = pos + 1;
        }
        let ghost before = string_views(out@);
        if pos > 0 && out[pos - 1] == *id {
            assert(before[pos - 1] == id@);
            assert forall|x: Seq<char>| #[trigger]
                before.contains(x) <==> all.take(i + 1).contains(x) by {
                if x == id@ {
                    assert(before.contains(x));
                }
                if all.take(i + 1).contains(x) && x != id@ {
                    let upto = all.take(i + 1);
                    let k = choose|k: int| 0 <= k < upto.len() && upto[k] == x;
                    assert(all.take(i as int)[k] == x);
                }
            }
        } else {
            proof {
                if pos < before.len() {
                    lemma_name_le_total(before[pos as int], id@);
                    lemma_name_le_reflexive(before[pos as int]);
                }
                assert forall|k: int| pos <= k < before.len() implies name_le(id@, #[trigger] before[k])
                    && id@ != before[k] by {
                    if k > pos {
                        assert(name_le(before[pos as int], before[k]));
                        lemma_name_le_transitive(id@, before[pos as int], before[k]);
                    }
                }
                assert forall|k: int| 0 <= k < pos implies name_le(#[trigger] before[k], id@)
                    && before[k] != id@ by {
                    assert(name_le(out@[k]@, id@));
                    if k < pos - 1 && before[k] == id@ {
                        assert(name_le(before[k], before[pos - 1]));
                        lemma_name_le_antisymmetric(before[pos - 1], id@);
                    }
                }
            }
            out.insert(pos, id.clone());
            let ghost after = string_views(out@);
            assert(after =~= before.insert(pos as int, id@));
            assert(ids_strictly_sorted(after)) by {
                assert forall|p: int, q: int| 0 <= p < q < after.len() implies #[trigger] name_le(
                    after[p],
                    after[q],
                ) && after[p] != after[q] by {
                    if q < pos {
                        assert(after[p] == before[p] && after[q] == before[q]);
                        assert(name_le(before[p], before[q]));
                    } else if q == pos {
                        assert(after[p] == before[p] && after[q] == id@);
                        assert(name_le(before[p], id@) && before[p] != id@);
                    } else if p < pos {
                        assert(after[p] == before[p] && after[q] == before[q - 1]);
                        assert(name_le(before[p], id@) && before[p] != id@);
                        assert(name_le(id@, before[q - 1]) && id@ != before[q - 1]);
                        lemma_name_le_transitive(before[p], id@, before[q - 1]);
                        if before[p] == before[q - 1] {
                            lemma_name_le_antisymmetric(before[p], id@);
                        }
                    } else if p == pos {
                        assert(after[p] == id@ && after[q] == before[q - 1]);
                        assert(name_le(id@, before[q - 1]) && id@ != before[q - 1]);
                    } else {
                        assert(after[p] == before[p - 1] && after[q] == before[q - 1]);
                        assert(name_le(before[p - 1], before[q - 1]));
                    }
                }
            }
            assert forall|x: Seq<char>| #[trigger]
                after.contains(x) <==> all.take(i + 1).contains(x) by {
                let upto = all.take(i + 1);
                if after.contains(x) {
                    let k = choose|k: int| 0 <= k < after.len() && after[k] == x;
                    if k == pos {
                        assert(upto[i as int] == x);
                    } else {
                        let b = if k < pos { k } else { k - 1 };
                        assert(before[b] == x);
                        assert(before.contains(x));
                        assert(all.take(i as int).contains(x));
                        let m = choose|m: int| 0 <= m < i && all.take(i as int)[m] == x;
                        assert(upto[m] == x);
                    }
                }
                if upto.contains(x) {
                    let k = choose|k: int| 0 <= k < upto.len() && upto[k] == x;
                    if k == i {
                        assert(after[pos as int] == x);
                    } else {
                        assert(all.take(i as int)[k] == x);
                        assert(all.take(i as int).contains(x));
                        assert(before.contains(x));
                        let b = choose|b: int| 0 <= b < before.len() && before[b] == x;
                        if b < pos {
                            assert(after[b] == x);
                        } else {
                            assert(after[b + 1] == x);
                        }
                    }
                }
            }
        }
        i = i + 1;
    }
    assert(all.take(ids.len() as int) =~= all);
    assert(string_views(out@).to_set() =~= all.to_set());
    out
}

/// The selection after the user ticked item ids: the ticked ids in canonical form, or the
/// current selection unchanged when no id is ticked.
pub fn selection_after_choice(current: SelectionTarget, chosen: &Vec<String>) -> (selection:
    SelectionTarget)
    ensures
        chosen@.len() == 0 ==> selection == current,
        chosen@.len() > 0 ==> (selection matches SelectionTarget::ItemIds(ids) && ids_strictly_sorted(
            string_views(ids@),
        ) && string_views(ids@).to_set() == string_views(chosen@).to_set()),
{
    if chosen.len() == 0 {
        current
    } else {
        SelectionTarget::ItemIds(normalized_item_selection(chosen))
    }
}

/// The indices of the items an export covers.
pub fn export_targets(selection: &SelectionTarget, item_ids: &Vec<String>) -> (t: Vec<usize>)
    ensures
        index_view(t@) == export_target_indices(*selection, string_views(item_ids@)),
        forall|i: int| 0 <= i < t@.len() ==> t@[i] < item_ids.len(),
{
    let ghost all_ids = string_views(item_ids@);
    let mut selected: Vec<usize> = Vec::new();
    if let SelectionTarget::ItemIds(ids) = selection {
        if ids.len() > 0 {
            let mut i: usize = 0;
            while i < item_ids.len()
                invariant
                    i <= item_ids.len(),
                    all_ids == string_views(item_ids@),
                    index_view(selected@) == selected_indices(string_views(ids@), all_ids.take(i as int)),
                    forall|k: int| 0 <= k < selected@.len() ==> selected@[k] < i,
                decreases item_ids.len() - i,
            {
                assert(all_ids.take(i + 1).drop_last() == all_ids.take(i as int));
                assert(all_ids.take(i + 1).last() == item_ids@[i as int]@);
                if ids_contain(ids, &item_ids[i]) {
                    let ghost before = index_view(selected@);
                    selected.push(i);
                    assert(index_view(selected@) =~= before.push(i as int));
                }
                i = i + 1;
            }
            assert(all_ids.take(item_ids.len() as int) == all_ids);
        }
    }
    if selected.len() > 0 {
        return selected;
    }
    let mut all: Vec<usize> = Vec::new();
    let mut i: usize = 0;
    while i < item_ids.len()
        invariant
            i <= item_ids.len(),
            index_view(all@) =~= Seq::new(i as nat, |k: int| k),
            forall|k: int| 0 <= k < all@.len() ==> all@[k] < item_ids.len(),
        decreases item_ids.len() - i,
    {
        let ghost before = index_view(all@);
        all.push(i);
        assert(index_view(all@) =~= before.push(i as int));
        i = i + 1;
    }
    all
}

/// Plans a canvas SVG export: the indices of the items to write, or why there is none.
/// `item_ids` and `item_kinds` describe the canvas items in order.
pub fn plan_canvas_export(
    export_path: &str,
    selection: &SelectionTarget,
    item_ids: &Vec<String>,
    item_kinds: &Vec<CanvasItemKind>,
) -> (r: Result<Vec<usize>, String>)
    requires
        item_ids.len() == item_kinds.len(),
    ensures
        match r {
            Ok(t) => canvas_export_decision(
                export_path@,
                *selection,
                string_views(item_ids@),
                item_kinds@,
            ) == Ok::<Seq<int>, Seq<char>>(index_view(t@)),
            Err(m) => canvas_export_decision(
                export_path@,
                *selection,
                string_views(item_ids@),
                item_kinds@,
            ) == Err::<Seq<int>, Seq<char>>(m@),
        },
{
    let trimmed = crate::text::trim_chars(&str_chars(export_path));
    if trimmed.len() == 0 {
        return Err("SVG export needs a target file path.".to_string());
    }
    let targets = export_targets(selection, item_ids);
    if targets.len() == 0 {
        return Err("No canvas items are available for export.".to_string());
    }
    let mut kinds: Vec<CanvasItemKind> = Vec::new();
    let mut i: usize = 0;
    while i < targets.len()
        invariant
            i <= targets.len(),
            item_ids.len() == item_kinds.len(),
            forall|k: int| 0 <= k < targets@.len() ==> targets@[k] < item_ids.len(),
            kinds@ =~= kinds_at(item_kinds@, index_view(targets@)).take(i as int),
        decreases targets.len() - i,
    {
        kinds.push(item_kinds[targets[i]]);
        i = i + 1;
    }
    assert(kinds@ =~= kinds_at(item_kinds@, index_view(targets@)));
    let service = CanvasExportService;
    match service.first_incompatibility(kinds.as_slice()) {
        Some(reason) => {
            let mut v: Vec<char> = Vec::new();
            push_str_chars(&mut v, "SVG export unavailable for this target: ");
            match reason {
                IncompatibleExportReason::RasterContent => push_str_chars(&mut v, "RasterContent"),
                IncompatibleExportReason::ImportedPdfPage => push_str_chars(
                    &mut v,
                    "ImportedPdfPage",
                ),
                IncompatibleExportReason::MixedUnsupportedSelection => push_str_chars(
                    &mut v,
                    "MixedUnsupportedSelection",
                ),
            }
            push_str_chars(&mut v, ".");
            Err(string_from_chars(&v))
        },
        None => Ok(targets),
    }
}

} // verus!
