//! The work that rebuilds one row, and the row that it leaves.
//!
//! A row holds its cells in order. Each maximal run of hyperlink cells sits in
//! an anchor of its own, whose target is the text of the run.
use crate::cell::{Cell, CellView};
use crate::effect::{
    attribute_views, lemma_views_push, views, Attribute, AttributeView, Effect, EffectView,
};
use vstd::prelude::*;

verus! {

/// The contents of the buffer.
pub open spec fn cell_views(cells: Seq<Cell>) -> Seq<CellView> {
    cells.map_values(|cell: Cell| cell@)
}

/// Where the run of hyperlink cells that goes on at `start` ends, inside a row
/// that ends at `end`.
pub open spec fn run_end(buffer: Seq<CellView>, start: int, end: int) -> int
    decreases end - start,
{
    if start < end && buffer[start].is_link() {
        run_end(buffer, start + 1, end)
    } else {
        start
    }
}

/// The text of the cells from `start` up to `end`: the target of a hyperlink
/// that is made of them.
pub open spec fn run_text(buffer: Seq<CellView>, start: int, end: int) -> Seq<char>
    decreases end - start,
{
    if start < end {
        run_text(buffer, start, end - 1) + buffer[end - 1].symbol
    } else {
        Seq::empty()
    }
}

/// The attributes of the anchor of a hyperlink to `url`.
pub open spec fn anchor_attributes(url: Seq<char>) -> Seq<AttributeView> {
    seq![
        AttributeView { name: "href"@, value: url },
        AttributeView { name: "target"@, value: "_blank"@ },
        AttributeView { name: "rel"@, value: "noopener"@ },
        AttributeView { name: "data-ratzilla-hyperlink"@, value: "true"@ },
        AttributeView { name: "style"@, value: crate::text::HYPERLINK_STYLE@ },
    ]
}

/// The work that makes a cell's element show `cell`.
pub open spec fn content_effect(index: int, cell: CellView, in_link: bool) -> EffectView {
    EffectView::SetContent { cell: index, text: cell.symbol, style: cell.style(in_link) }
}

/// The work that fills the anchor with the cells from `start` up to `end`.
pub open spec fn link_effects(buffer: Seq<CellView>, start: int, end: int) -> Seq<EffectView>
    decreases end - start,
{
    if start < end {
        link_effects(buffer, start, end - 1) + seq![
            content_effect(end - 1, buffer[end - 1], true),
            EffectView::PlaceInAnchor { cell: end - 1 },
        ]
    } else {
        Seq::empty()
    }
}

/// The work that fills an empty row with the cells from `start` up to `end`.
pub open spec fn fill_effects(
    buffer: Seq<CellView>,
    row: int,
    start: int,
    end: int,
) -> Seq<EffectView>
    decreases end - start,
    via fill_effects_decreases
{
    if start >= end {
        Seq::empty()
    } else if buffer[start].is_link() {
        let stop = run_end(buffer, start, end);
        seq![EffectView::CreateAnchor {
            attributes: anchor_attributes(run_text(buffer, start, stop)),
        }] + link_effects(buffer, start, stop) + seq![EffectView::PlaceAnchor { row }]
            + fill_effects(buffer, row, stop, end)
    } else {
        seq![
            content_effect(start, buffer[start], false),
            EffectView::PlaceCell { row, cell: start },
        ] + fill_effects(buffer, row, start + 1, end)
    }
}

/// The work that rebuilds a row out of the cells from `start` up to `end`.
pub open spec fn rebuild_effects(
    buffer: Seq<CellView>,
    row: int,
    start: int,
    end: int,
) -> Seq<EffectView> {
    seq![EffectView::ClearRow { row }] + fill_effects(buffer, row, start, end)
}

#[via_fn]
proof fn fill_effects_decreases(buffer: Seq<CellView>, row: int, start: int, end: int) {
    if start < end {
        lemma_run_end(buffer, start, end);
    }
}

/// A run lies inside its row, is made of hyperlink cells, and is as long as
/// can be.
pub proof fn lemma_run_end(buffer: Seq<CellView>, start: int, end: int)
    requires
        start <= end,
    ensures
        start <= run_end(buffer, start, end) <= end,
        start < end && buffer[start].is_link() ==> start < run_end(buffer, start, end),
        forall|i: int|
            start <= i < run_end(buffer, start, end) ==> (#[trigger] buffer[i]).is_link(),
        run_end(buffer, start, end) < end ==> !buffer[run_end(buffer, start, end)].is_link(),
    decreases end - start,
{
    if start < end && buffer[start].is_link() {
        lemma_run_end(buffer, start + 1, end);
    }
}

/// Makes a cell's element show `cell`.
pub fn set_cell_content(index: usize, cell: &Cell, is_hyperlink: bool) -> (effect: Effect)
    ensures
        effect@ == content_effect(index as int, cell@, is_hyperlink),
{
    let style = if is_hyperlink {
        cell.hyperlink_style()
    } else {
        cell.css.clone()
    };
    Effect::SetContent { cell: index, text: cell.symbol.clone(), style }
}

/// Creates the anchor of a hyperlink to `url`.
pub fn create_hyperlink_anchor(url: &str) -> (effect: Effect)
    ensures
        effect@ == (EffectView::CreateAnchor { attributes: anchor_attributes(url@) }),
{
    let mut attributes: Vec<Attribute> = Vec::new();
    attributes.push(Attribute::new("href", url));
    attributes.push(Attribute::new("target", "_blank"));
    attributes.push(Attribute::new("rel", "noopener"));
    attributes.push(Attribute::new("data-ratzilla-hyperlink", "true"));
    attributes.push(Attribute::new("style", crate::text::HYPERLINK_STYLE));
    proof {
        assert(attribute_views(attributes@) =~= anchor_attributes(url@));
    }
    Effect::CreateAnchor { attributes }
}

/// Rebuilds a row out of the cells from `start` up to `end`: empties it, and
/// fills it again.
pub fn rebuild_row(cells: &Vec<Cell>, row: usize, start: usize, end: usize) -> (effects: Vec<
    Effect,
>)
    requires
        start <= end <= cells@.len(),
    ensures
        views(effects@) == rebuild_effects(
            cell_views(cells@),
            row as int,
            start as int,
            end as int,
        ),
{
    broadcast use lemma_views_push;

    let ghost buffer = cell_views(cells@);
    let ghost whole = rebuild_effects(buffer, row as int, start as int, end as int);
    let mut effects: Vec<Effect> = Vec::new();
    effects.push(Effect::ClearRow { row });
    assert(views(effects@) =~= seq![EffectView::ClearRow { row: row as int }]);
    let mut index: usize = start;
    while index < end
        invariant
            start <= index <= end <= cells@.len(),
            buffer == cell_views(cells@),
            whole == views(effects@) + fill_effects(buffer, row as int, index as int, end as int),
        decreases end - index,
    {
        let ghost done = views(effects@);
        let ghost from = index as int;
        proof {
            lemma_run_end(buffer, from, end as int);
        }
        let cell = &cells[index];
        assert(buffer[from] == cell@);
        if !cell.is_hyperlink() {
            effects.push(set_cell_content(index, cell, false));
            effects.push(Effect::PlaceCell { row, cell: index });
            index = index + 1;
            assert(views(effects@) =~= done + seq![
                content_effect(from, buffer[from], false),
                EffectView::PlaceCell { row: row as int, cell: from },
            ]);
            assert(whole =~= views(effects@) + fill_effects(
                buffer,
                row as int,
                index as int,
                end as int,
            ));
        } else {
            let link_start = index;
            let ghost stop = run_end(buffer, from, end as int);
            let url = collect_run(cells, &mut index, end);
            effects.push(create_hyperlink_anchor(url.as_str()));
            let ghost open = seq![
                EffectView::CreateAnchor {
                    attributes: anchor_attributes(run_text(buffer, from, stop)),
                },
            ];
            assert(views(effects@) =~= done + open);
            fill_anchor(cells, link_start, index, &mut effects);
            effects.push(Effect::PlaceAnchor { row });
            let ghost inside = link_effects(buffer, from, stop);
            let ghost close = seq![EffectView::PlaceAnchor { row: row as int }];
            assert(views(effects@) =~= done + open + inside + close);
            assert(done + open + inside + close =~= done + (open + inside + close));
            assert(whole =~= views(effects@) + fill_effects(
                buffer,
                row as int,
                index as int,
                end as int,
            ));
        }
    }
    assert(whole =~= views(effects@));
    effects
}

/// Fills the anchor with the cells from `start` up to `end`.
fn fill_anchor(cells: &Vec<Cell>, start: usize, end: usize, effects: &mut Vec<Effect>)
    requires
        start <= end <= cells@.len(),
    ensures
        views(final(effects)@) == views(old(effects)@) + link_effects(
            cell_views(cells@),
            start as int,
            end as int,
        ),
{
    broadcast use lemma_views_push;

    let ghost buffer = cell_views(cells@);
    let ghost opened = views(effects@);
    let mut member: usize = start;
    assert(opened =~= opened + link_effects(buffer, start as int, member as int));
    while member < end
        invariant
            start <= member <= end <= cells@.len(),
            buffer == cell_views(cells@),
            views(effects@) == opened + link_effects(buffer, start as int, member as int),
        decreases end - member,
    {
        let ghost at = member as int;
        let ghost before = views(effects@);
        let ghost so_far = link_effects(buffer, start as int, at);
        assert(buffer[at] == cells@[at]@);
        effects.push(set_cell_content(member, &cells[member], true));
        effects.push(Effect::PlaceInAnchor { cell: member });
        member = member + 1;
        let ghost two = seq![
            content_effect(at, buffer[at], true),
            EffectView::PlaceInAnchor { cell: at },
        ];
        assert(views(effects@) =~= before + two);
        assert(opened + so_far + two =~= opened + (so_far + two));
    }
}

/// Walks to the end of the run of hyperlink cells at `index`, and collects the
/// text of the run.
fn collect_run(cells: &Vec<Cell>, index: &mut usize, end: usize) -> (url: String)
    requires
        *old(index) <= end <= cells@.len(),
    ensures
        *final(index) == run_end(cell_views(cells@), *old(index) as int, end as int),
        *old(index) <= *final(index) <= end,
        url@ == run_text(cell_views(cells@), *old(index) as int, *final(index) as int),
{
    let ghost buffer = cell_views(cells@);
    let start = *index;
    let mut at: usize = start;
    let mut url = String::new();
    while at < end && cells[at].is_hyperlink()
        invariant
            start <= at <= end <= cells@.len(),
            buffer == cell_views(cells@),
            run_end(buffer, start as int, end as int) == run_end(buffer, at as int, end as int),
            url@ == run_text(buffer, start as int, at as int),
        decreases end - at,
    {
        assert(buffer[at as int] == cells@[at as int]@);
        url.append(cells[at].symbol.as_str());
        at = at + 1;
    }
    assert(at < end ==> buffer[at as int] == cells@[at as int]@);
    *index = at;
    url
}

} // verus!
