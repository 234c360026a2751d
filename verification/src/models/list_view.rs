//! Layout of the model list panel: its title, which columns fit the panel
//! width, the header cells and the text cells of a row.

use vstd::prelude::*;
use crate::models::app::SortOrder;
use crate::models::render::ModelListColumn;
use crate::text::{push_str, push_padded_left, push_padded_right, pad_left_spec, pad_right_spec,
    truncate, truncate_spec, string_from_chars};
use crate::formatting::{decimal, u64_to_decimal};
use crate::models::app::{ListMode, ModelEntry, ModelIdentityProvenance, ModelInfo, ModelsApp, ProviderInfo};
use crate::palette::{TermColor, TextSpan, TextSpanView, span_view, span_views};
use crate::models::render::{format_filters, join_comma, active_filter_names};
use crate::models::grouping::ModelGroup;

verus! {

/// Sort suffix of the list title: nothing for the default order, else an
/// arrow for the direction and the sort key.
pub open spec fn spec_sort_indicator(order: SortOrder, ascending: bool) -> Seq<char> {
    match order {
        SortOrder::Default => Seq::empty(),
        _ => seq![' ', if ascending { '\u{2191}' } else { '\u{2193}' }] + match order {
            SortOrder::ReleaseDate => "date"@,
            SortOrder::Cost => "cost"@,
            _ => "ctx"@,
        },
    }
}

/// Sort suffix of the list title.
pub fn sort_indicator(order: SortOrder, ascending: bool) -> (r: String)
    ensures
        r@ == spec_sort_indicator(order, ascending),
{
    let mut v: Vec<char> = Vec::new();
    match order {
        SortOrder::Default => {},
        _ => {
            v.push(' ');
            v.push(if ascending { '\u{2191}' } else { '\u{2193}' });
            let label = match order {
                SortOrder::ReleaseDate => "date",
                SortOrder::Cost => "cost",
                _ => "ctx",
            };
            push_str(&mut v, label);
        },
    }
    crate::text::string_from_chars(&v)
}

/// Title of the list panel: label and count, then the search query and the
/// filter summary in brackets when present; the sort suffix follows the
/// count, or the query when there is one.
pub open spec fn spec_list_title(
    label: Seq<char>,
    count: Seq<char>,
    search: Seq<char>,
    filters: Seq<char>,
    sort: Seq<char>,
) -> Seq<char> {
    let head = " "@ + label + " ("@ + count + ")"@;
    if search.len() == 0 && filters.len() == 0 {
        head + sort + " "@
    } else if search.len() == 0 {
        head + sort + " ["@ + filters + "] "@
    } else if filters.len() == 0 {
        head + " [/"@ + search + "]"@ + sort + " "@
    } else {
        head + " [/"@ + search + "] ["@ + filters + "]"@ + sort + " "@
    }
}

/// Title of the list panel.
pub fn list_title(label: &str, count: &str, search: &str, filters: &str, sort: &str) -> (r: String)
    ensures
        r@ == spec_list_title(label@, count@, search@, filters@, sort@),
{
    let sv = crate::text::chars_of(search);
    let fv = crate::text::chars_of(filters);
    let mut v: Vec<char> = Vec::new();
    push_str(&mut v, " ");
    push_str(&mut v, label);
    push_str(&mut v, " (");
    push_str(&mut v, count);
    push_str(&mut v, ")");
    if sv.len() == 0 && fv.len() == 0 {
        push_str(&mut v, sort);
        push_str(&mut v, " ");
    } else if sv.len() == 0 {
        push_str(&mut v, sort);
        push_str(&mut v, " [");
        push_str(&mut v, filters);
        push_str(&mut v, "] ");
    } else if fv.len() == 0 {
        push_str(&mut v, " [/");
        push_str(&mut v, search);
        push_str(&mut v, "]");
        push_str(&mut v, sort);
        push_str(&mut v, " ");
    } else {
        push_str(&mut v, " [/");
        push_str(&mut v, search);
        push_str(&mut v, "] [");
        push_str(&mut v, filters);
        push_str(&mut v, "]");
        push_str(&mut v, sort);
        push_str(&mut v, " ");
    }
    assert(v@ =~= spec_list_title(label@, count@, search@, filters@, sort@));
    crate::text::string_from_chars(&v)
}

/// Width of the caret and the four capability flags left of the name.
pub const FIXED_WIDTH: u16 = 7;

/// Fewest cells the name column keeps before optional columns are dropped.
pub const NAME_MIN: u16 = 18;

/// Narrowest the name column ever gets.
pub const NAME_FLOOR: usize = 10;

pub open spec fn flat_col_width(c: ModelListColumn) -> nat {
    match c {
        ModelListColumn::Provider => 15,
        _ => 9,
    }
}

/// Takes `c` when it fits in the remaining budget.
pub open spec fn take_flat(acc: (Seq<ModelListColumn>, int), c: ModelListColumn) -> (Seq<ModelListColumn>, int) {
    if acc.1 >= flat_col_width(c) { (acc.0.push(c), acc.1 - flat_col_width(c)) } else { acc }
}

/// The flat list's columns that fit `budget` cells, taken greedily in the
/// keep-priority order Provider, Input, Output, Context.
pub open spec fn fit_flat(budget: int) -> Seq<ModelListColumn> {
    take_flat(take_flat(take_flat(take_flat((Seq::empty(), budget), ModelListColumn::Provider),
        ModelListColumn::Input), ModelListColumn::Output), ModelListColumn::Context).0
}

/// The column the active sort reads: Input for cost, Context for context.
pub open spec fn flat_sort_column(order: SortOrder) -> Option<ModelListColumn> {
    match order {
        SortOrder::Cost => Some(ModelListColumn::Input),
        SortOrder::Context => Some(ModelListColumn::Context),
        _ => None,
    }
}

/// The sorted column replaces the last kept column when it was dropped (and
/// some column was kept).
pub open spec fn with_sort_column<C>(cols: Seq<C>, needed: Option<C>) -> Seq<C> {
    match needed {
        Some(n) => if cols.len() > 0 && !cols.contains(n) { cols.update(cols.len() - 1, n) } else { cols },
        None => cols,
    }
}

pub open spec fn flat_cols_width(s: Seq<ModelListColumn>) -> nat
    decreases s.len(),
{
    if s.len() == 0 { 0 } else { flat_cols_width(s.drop_last()) + flat_col_width(s.last()) }
}

/// Cells left for the name column: what the fixed part and the columns
/// leave, but never fewer than ten.
pub open spec fn name_width_for(inner: nat, cols_w: nat) -> nat {
    let rest: int = inner - (FIXED_WIDTH + cols_w);
    if rest > NAME_FLOOR { rest as nat } else { NAME_FLOOR as nat }
}

/// Columns of the flat list at inner width `inner`, and the name width.
pub open spec fn spec_flat_columns(inner: nat, order: SortOrder) -> (Seq<ModelListColumn>, nat) {
    let budget: int = if inner > FIXED_WIDTH + NAME_MIN { inner - (FIXED_WIDTH + NAME_MIN) } else { 0 };
    let cols = with_sort_column(fit_flat(budget), flat_sort_column(order));
    (cols, name_width_for(inner, flat_cols_width(cols)))
}

proof fn lemma_flat_width_update(s: Seq<ModelListColumn>, n: ModelListColumn)
    requires
        s.len() > 0,
    ensures
        flat_cols_width(s.update(s.len() - 1, n)) == flat_cols_width(s) - flat_col_width(s.last()) + flat_col_width(n),
{
    assert(s.update(s.len() - 1, n).drop_last() =~= s.drop_last());
}

proof fn lemma_flat_take(acc: (Seq<ModelListColumn>, int), c: ModelListColumn)
    requires
        flat_cols_width(acc.0) + acc.1 >= 0,
        acc.1 >= 0,
    ensures
        flat_cols_width(take_flat(acc, c).0) + take_flat(acc, c).1 == flat_cols_width(acc.0) + acc.1,
        take_flat(acc, c).1 >= 0,
{
    if acc.1 >= flat_col_width(c) {
        assert(acc.0.push(c).drop_last() =~= acc.0);
    }
}

/// The greedy fit never exceeds its budget.
proof fn lemma_fit_flat_within(budget: int)
    requires
        budget >= 0,
    ensures
        flat_cols_width(fit_flat(budget)) <= budget,
{
    let a0 = (Seq::<ModelListColumn>::empty(), budget);
    let a1 = take_flat(a0, ModelListColumn::Provider);
    let a2 = take_flat(a1, ModelListColumn::Input);
    let a3 = take_flat(a2, ModelListColumn::Output);
    lemma_flat_take(a0, ModelListColumn::Provider);
    lemma_flat_take(a1, ModelListColumn::Input);
    lemma_flat_take(a2, ModelListColumn::Output);
    lemma_flat_take(a3, ModelListColumn::Context);
}

/// Which optional columns the flat list shows at inner width `inner`, and how
/// wide its name column is. Whenever a column is shown the name keeps at
/// least `NAME_MIN` cells, and the column the sort reads is among them.
pub fn flat_columns(inner: u16, order: SortOrder) -> (r: (Vec<ModelListColumn>, usize))
    ensures
        (r.0@, r.1 as nat) == spec_flat_columns(inner as nat, order),
        r.0@.len() > 0 ==> r.1 >= NAME_MIN,
        r.0@.len() > 0 && flat_sort_column(order) is Some ==> r.0@.contains(flat_sort_column(order)->0),
{
    let mut budget: u16 = inner.saturating_sub(FIXED_WIDTH + NAME_MIN);
    let ghost b0 = budget as int;
    let mut cols: Vec<ModelListColumn> = Vec::new();
    if budget >= 15 {
        budget = budget - 15;
        cols.push(ModelListColumn::Provider);
    }
    if budget >= 9 {
        budget = budget - 9;
        cols.push(ModelListColumn::Input);
    }
    if budget >= 9 {
        budget = budget - 9;
        cols.push(ModelListColumn::Output);
    }
    if budget >= 9 {
        budget = budget - 9;
        cols.push(ModelListColumn::Context);
    }
    assert(cols@ =~= fit_flat(b0));
    proof {
        lemma_fit_flat_within(b0);
    }
    let ghost fitted = cols@;
    let needed: Option<ModelListColumn> = match order {
        SortOrder::Cost => Some(ModelListColumn::Input),
        SortOrder::Context => Some(ModelListColumn::Context),
        _ => None,
    };
    match needed {
        Some(n) => {
            let mut present = false;
            let mut i: usize = 0;
            while i < cols.len()
                invariant
                    i <= cols@.len(),
                    present == (exists|j: int| 0 <= j < i && cols@[j] == n),
                decreases cols.len() - i,
            {
                if cols[i] == n {
                    present = true;
                }
                i = i + 1;
            }
            if cols.len() > 0 && !present {
                let last = cols.len() - 1;
                proof {
                    lemma_flat_width_update(cols@, n);
                }
                cols.set(last, n);
                assert(cols@[last as int] == n);
            } else if present {
                let ghost j = choose|j: int| 0 <= j < i && cols@[j] == n;
                assert(cols@.contains(n));
            }
        },
        None => {},
    }
    assert(cols@ == with_sort_column(fitted, flat_sort_column(order)));
    let mut cols_w: usize = 0;
    let mut k: usize = 0;
    while k < cols.len()
        invariant
            k <= cols@.len(),
            cols@.len() <= 4,
            cols_w == flat_cols_width(cols@.take(k as int)),
            cols_w <= 15 * k,
        decreases cols.len() - k,
    {
        assert(cols@.take(k as int + 1).drop_last() =~= cols@.take(k as int));
        let w: usize = match cols[k] {
            ModelListColumn::Provider => 15,
            _ => 9,
        };
        cols_w = cols_w + w;
        k = k + 1;
    }
    assert(cols@.take(k as int) =~= cols@);
    let used = (FIXED_WIDTH as usize) + cols_w;
    let rest: usize = if (inner as usize) > used { (inner as usize) - used } else { 0 };
    let name_width = if rest > NAME_FLOOR { rest } else { NAME_FLOOR };
    (cols, name_width)
}

/// Optional columns of the grouped list, in display and keep-priority order.
#[derive(Debug, Clone, Copy, PartialEq, Eq, Structural)]
pub enum GroupColumn {
    Lab,
    Providers,
    Input,
    Output,
    Context,
}

impl GroupColumn {
    /// Total column width including its one-space leading gap.
    pub fn width(self) -> (r: u16)
        ensures
            r as nat == group_col_width(self),
    {
        match self {
            GroupColumn::Lab => 16,
            GroupColumn::Providers => 11,
            GroupColumn::Input | GroupColumn::Output | GroupColumn::Context => 12,
        }
    }
}

pub open spec fn group_col_width(c: GroupColumn) -> nat {
    match c {
        GroupColumn::Lab => 16,
        GroupColumn::Providers => 11,
        _ => 12,
    }
}

pub open spec fn take_group(acc: (Seq<GroupColumn>, int), c: GroupColumn) -> (Seq<GroupColumn>, int) {
    if acc.1 >= group_col_width(c) { (acc.0.push(c), acc.1 - group_col_width(c)) } else { acc }
}

/// The grouped list's columns that fit `budget` cells, taken greedily in the
/// order Lab, Providers, Input, Output, Context.
pub open spec fn fit_group(budget: int) -> Seq<GroupColumn> {
    take_group(take_group(take_group(take_group(take_group((Seq::empty(), budget), GroupColumn::Lab),
        GroupColumn::Providers), GroupColumn::Input), GroupColumn::Output), GroupColumn::Context).0
}

pub open spec fn group_sort_column(order: SortOrder) -> Option<GroupColumn> {
    match order {
        SortOrder::Cost => Some(GroupColumn::Input),
        SortOrder::Context => Some(GroupColumn::Context),
        _ => None,
    }
}

pub open spec fn group_cols_width(s: Seq<GroupColumn>) -> nat
    decreases s.len(),
{
    if s.len() == 0 { 0 } else { group_cols_width(s.drop_last()) + group_col_width(s.last()) }
}

/// Columns of the grouped list at inner width `inner`, and the name width.
pub open spec fn spec_group_columns(inner: nat, order: SortOrder) -> (Seq<GroupColumn>, nat) {
    let budget: int = if inner > FIXED_WIDTH + NAME_MIN { inner - (FIXED_WIDTH + NAME_MIN) } else { 0 };
    let cols = with_sort_column(fit_group(budget), group_sort_column(order));
    (cols, name_width_for(inner, group_cols_width(cols)))
}

proof fn lemma_group_width_update(s: Seq<GroupColumn>, n: GroupColumn)
    requires
        s.len() > 0,
    ensures
        group_cols_width(s.update(s.len() - 1, n)) == group_cols_width(s) - group_col_width(s.last()) + group_col_width(n),
{
    assert(s.update(s.len() - 1, n).drop_last() =~= s.drop_last());
}

proof fn lemma_group_take(acc: (Seq<GroupColumn>, int), c: GroupColumn)
    requires
        acc.1 >= 0,
    ensures
        group_cols_width(take_group(acc, c).0) + take_group(acc, c).1 == group_cols_width(acc.0) + acc.1,
        take_group(acc, c).1 >= 0,
{
    if acc.1 >= group_col_width(c) {
        assert(acc.0.push(c).drop_last() =~= acc.0);
    }
}

proof fn lemma_fit_group_within(budget: int)
    requires
        budget >= 0,
    ensures
        group_cols_width(fit_group(budget)) <= budget,
{
    let a0 = (Seq::<GroupColumn>::empty(), budget);
    let a1 = take_group(a0, GroupColumn::Lab);
    let a2 = take_group(a1, GroupColumn::Providers);
    let a3 = take_group(a2, GroupColumn::Input);
    let a4 = take_group(a3, GroupColumn::Output);
    lemma_group_take(a0, GroupColumn::Lab);
    lemma_group_take(a1, GroupColumn::Providers);
    lemma_group_take(a2, GroupColumn::Input);
    lemma_group_take(a3, GroupColumn::Output);
    lemma_group_take(a4, GroupColumn::Context);
}

/// Which optional columns the grouped list shows at inner width `inner`, and
/// how wide its name column is. Whenever a column is shown the sorted column
/// is among them, and the name keeps at least `NAME_MIN - 1` cells (one less
/// than the flat list: the sorted column can be one cell wider than the
/// Providers column it replaces).
pub fn group_columns(inner: u16, order: SortOrder) -> (r: (Vec<GroupColumn>, usize))
    ensures
        (r.0@, r.1 as nat) == spec_group_columns(inner as nat, order),
        r.0@.len() > 0 ==> r.1 + 1 >= NAME_MIN,
        r.0@.len() > 0 && group_sort_column(order) is Some ==> r.0@.contains(group_sort_column(order)->0),
{
    let mut budget: u16 = inner.saturating_sub(FIXED_WIDTH + NAME_MIN);
    let ghost b0 = budget as int;
    let mut cols: Vec<GroupColumn> = Vec::new();
    if budget >= 16 {
        budget = budget - 16;
        cols.push(GroupColumn::Lab);
    }
    if budget >= 11 {
        budget = budget - 11;
        cols.push(GroupColumn::Providers);
    }
    if budget >= 12 {
        budget = budget - 12;
        cols.push(GroupColumn::Input);
    }
    if budget >= 12 {
        budget = budget - 12;
        cols.push(GroupColumn::Output);
    }
    if budget >= 12 {
        budget = budget - 12;
        cols.push(GroupColumn::Context);
    }
    assert(cols@ =~= fit_group(b0));
    proof {
        lemma_fit_group_within(b0);
    }
    let ghost fitted = cols@;
    let needed: Option<GroupColumn> = match order {
        SortOrder::Cost => Some(GroupColumn::Input),
        SortOrder::Context => Some(GroupColumn::Context),
        _ => None,
    };
    match needed {
        Some(n) => {
            let mut present = false;
            let mut i: usize = 0;
            while i < cols.len()
                invariant
                    i <= cols@.len(),
                    present == (exists|j: int| 0 <= j < i && cols@[j] == n),
                decreases cols.len() - i,
            {
                if cols[i] == n {
                    present = true;
                }
                i = i + 1;
            }
            if cols.len() > 0 && !present {
                let last = cols.len() - 1;
                proof {
                    lemma_group_width_update(cols@, n);
                }
                cols.set(last, n);
                assert(cols@[last as int] == n);
            } else if present {
                let ghost j = choose|j: int| 0 <= j < i && cols@[j] == n;
                assert(cols@.contains(n));
            }
        },
        None => {},
    }
    assert(cols@ == with_sort_column(fitted, group_sort_column(order)));
    let mut cols_w: usize = 0;
    let mut k: usize = 0;
    while k < cols.len()
        invariant
            k <= cols@.len(),
            cols@.len() <= 5,
            cols_w == group_cols_width(cols@.take(k as int)),
            cols_w <= 16 * k,
        decreases cols.len() - k,
    {
        assert(cols@.take(k as int + 1).drop_last() =~= cols@.take(k as int));
        let w = cols[k].width() as usize;
        cols_w = cols_w + w;
        k = k + 1;
    }
    assert(cols@.take(k as int) =~= cols@);
    let used = (FIXED_WIDTH as usize) + cols_w;
    let rest: usize = if (inner as usize) > used { (inner as usize) - used } else { 0 };
    let name_width = if rest > NAME_FLOOR { rest } else { NAME_FLOOR };
    (cols, name_width)
}

/// How a header cell is drawn: unstyled, as a header, or as the header of
/// the sorted column.
#[derive(Debug, Clone, Copy, PartialEq, Eq, Structural)]
pub enum HeaderStyle {
    Plain,
    Header,
    Active,
}

/// One cell of the sticky header line.
#[derive(Debug, Clone, PartialEq, Eq)]
pub struct HeaderCell {
    pub text: String,
    pub style: HeaderStyle,
}

pub open spec fn header_views(v: Seq<HeaderCell>) -> Seq<(Seq<char>, HeaderStyle)> {
    v.map_values(|c: HeaderCell| (c.text@, c.style))
}

/// The name column is the sorted one for the default and date orders.
pub open spec fn name_sorted(order: SortOrder) -> bool {
    order == SortOrder::Default || order == SortOrder::ReleaseDate
}

pub open spec fn cost_style(order: SortOrder) -> HeaderStyle {
    if order == SortOrder::Cost { HeaderStyle::Active } else { HeaderStyle::Header }
}

pub open spec fn context_style(order: SortOrder) -> HeaderStyle {
    if order == SortOrder::Context { HeaderStyle::Active } else { HeaderStyle::Header }
}

/// The caret gap, the capability flags and the name column of a header.
pub open spec fn header_lead(name_width: nat, order: SortOrder) -> Seq<(Seq<char>, HeaderStyle)> {
    seq![
        (seq![' ', ' '], HeaderStyle::Plain),
        (seq!['R', 'T', 'F', 'O', ' '], HeaderStyle::Header),
        (pad_right_spec("Model"@, name_width),
            if name_sorted(order) { HeaderStyle::Active } else { HeaderStyle::Header }),
    ]
}

pub open spec fn flat_header_cell(c: ModelListColumn, order: SortOrder) -> (Seq<char>, HeaderStyle) {
    match c {
        ModelListColumn::Provider => (seq![' '] + pad_right_spec("Provider"@, 14), HeaderStyle::Header),
        ModelListColumn::Input => (seq![' '] + pad_left_spec("Input"@, 8), cost_style(order)),
        ModelListColumn::Output => (seq![' '] + pad_left_spec("Output"@, 8), cost_style(order)),
        ModelListColumn::Context => (seq![' '] + pad_left_spec("Context"@, 8), context_style(order)),
    }
}

pub open spec fn group_header_cell(c: GroupColumn, order: SortOrder) -> (Seq<char>, HeaderStyle) {
    match c {
        GroupColumn::Lab => (seq![' '] + pad_right_spec("Lab"@, 15), HeaderStyle::Header),
        GroupColumn::Providers => (seq![' '] + pad_left_spec("Providers"@, 10), HeaderStyle::Header),
        GroupColumn::Input => (seq![' '] + pad_left_spec("Input"@, 11), cost_style(order)),
        GroupColumn::Output => (seq![' '] + pad_left_spec("Output"@, 11), cost_style(order)),
        GroupColumn::Context => (seq![' '] + pad_left_spec("Context"@, 11), context_style(order)),
    }
}

fn header_cell(text: Vec<char>, style: HeaderStyle) -> (r: HeaderCell)
    ensures
        r.text@ == text@,
        r.style == style,
{
    HeaderCell { text: string_from_chars(&text), style }
}

fn push_header_lead(cells: &mut Vec<HeaderCell>, name_width: usize, order: SortOrder)
    requires
        old(cells)@.len() == 0,
    ensures
        header_views(final(cells)@) == header_lead(name_width as nat, order),
{
    let mut a: Vec<char> = Vec::new();
    a.push(' ');
    a.push(' ');
    cells.push(header_cell(a, HeaderStyle::Plain));
    let mut b: Vec<char> = Vec::new();
    b.push('R');
    b.push('T');
    b.push('F');
    b.push('O');
    b.push(' ');
    cells.push(header_cell(b, HeaderStyle::Header));
    let mut m: Vec<char> = Vec::new();
    push_padded_right(&mut m, "Model", name_width);
    let st = match order {
        SortOrder::Default | SortOrder::ReleaseDate => HeaderStyle::Active,
        _ => HeaderStyle::Header,
    };
    assert(m@ == pad_right_spec("Model"@, name_width as nat));
    cells.push(header_cell(m, st));
    let ghost hv = header_views(cells@);
    assert(hv.len() == 3);
    assert(hv[0] == (seq![' ', ' '], HeaderStyle::Plain));
    assert(hv[1] == (seq!['R', 'T', 'F', 'O', ' '], HeaderStyle::Header));
    assert(hv[2] == (pad_right_spec("Model"@, name_width as nat),
            if name_sorted(order) { HeaderStyle::Active } else { HeaderStyle::Header }));
    assert(hv =~= header_lead(name_width as nat, order));
}

/// The sticky header of the flat list.
pub fn flat_header(cols: &Vec<ModelListColumn>, name_width: usize, order: SortOrder) -> (r: Vec<HeaderCell>)
    ensures
        header_views(r@) == header_lead(name_width as nat, order)
            + cols@.map_values(|c: ModelListColumn| flat_header_cell(c, order)),
{
    let mut cells: Vec<HeaderCell> = Vec::new();
    push_header_lead(&mut cells, name_width, order);
    let ghost lead = header_views(cells@);
    let mut i: usize = 0;
    while i < cols.len()
        invariant
            i <= cols@.len(),
            header_views(cells@) == lead + cols@.take(i as int).map_values(|c: ModelListColumn| flat_header_cell(c, order)),
        decreases cols.len() - i,
    {
        let mut t: Vec<char> = Vec::new();
        t.push(' ');
        let cell = match cols[i] {
            ModelListColumn::Provider => {
                push_padded_right(&mut t, "Provider", 14);
                header_cell(t, HeaderStyle::Header)
            },
            ModelListColumn::Input => {
                push_padded_left(&mut t, "Input", 8);
                header_cell(t, if order == SortOrder::Cost { HeaderStyle::Active } else { HeaderStyle::Header })
            },
            ModelListColumn::Output => {
                push_padded_left(&mut t, "Output", 8);
                header_cell(t, if order == SortOrder::Cost { HeaderStyle::Active } else { HeaderStyle::Header })
            },
            ModelListColumn::Context => {
                push_padded_left(&mut t, "Context", 8);
                header_cell(t, if order == SortOrder::Context { HeaderStyle::Active } else { HeaderStyle::Header })
            },
        };
        assert((cell.text@, cell.style) == flat_header_cell(cols@[i as int], order));
        let ghost prev = cells@;
        cells.push(cell);
        assert(header_views(cells@) =~= header_views(prev).push(flat_header_cell(cols@[i as int], order)));
        let ghost done = cols@.take(i as int).map_values(|c: ModelListColumn| flat_header_cell(c, order));
        assert(cols@.take(i as int + 1).map_values(|c: ModelListColumn| flat_header_cell(c, order)) =~= done.push(flat_header_cell(cols@[i as int], order)));
        assert(header_views(cells@) =~= lead + done.push(flat_header_cell(cols@[i as int], order)));
        i = i + 1;
    }
    assert(cols@.take(i as int) =~= cols@);
    cells
}

/// The sticky header of the grouped list.
pub fn group_header(cols: &Vec<GroupColumn>, name_width: usize, order: SortOrder) -> (r: Vec<HeaderCell>)
    ensures
        header_views(r@) == header_lead(name_width as nat, order)
            + cols@.map_values(|c: GroupColumn| group_header_cell(c, order)),
{
    let mut cells: Vec<HeaderCell> = Vec::new();
    push_header_lead(&mut cells, name_width, order);
    let ghost lead = header_views(cells@);
    let mut i: usize = 0;
    while i < cols.len()
        invariant
            i <= cols@.len(),
            header_views(cells@) == lead + cols@.take(i as int).map_values(|c: GroupColumn| group_header_cell(c, order)),
        decreases cols.len() - i,
    {
        let mut t: Vec<char> = Vec::new();
        t.push(' ');
        let cell = match cols[i] {
            GroupColumn::Lab => {
                push_padded_right(&mut t, "Lab", 15);
                header_cell(t, HeaderStyle::Header)
            },
            GroupColumn::Providers => {
                push_padded_left(&mut t, "Providers", 10);
                header_cell(t, HeaderStyle::Header)
            },
            GroupColumn::Input => {
                push_padded_left(&mut t, "Input", 11);
                header_cell(t, if order == SortOrder::Cost { HeaderStyle::Active } else { HeaderStyle::Header })
            },
            GroupColumn::Output => {
                push_padded_left(&mut t, "Output", 11);
                header_cell(t, if order == SortOrder::Cost { HeaderStyle::Active } else { HeaderStyle::Header })
            },
            GroupColumn::Context => {
                push_padded_left(&mut t, "Context", 11);
                header_cell(t, if order == SortOrder::Context { HeaderStyle::Active } else { HeaderStyle::Header })
            },
        };
        assert((cell.text@, cell.style) == group_header_cell(cols@[i as int], order));
        let ghost prev = cells@;
        cells.push(cell);
        assert(header_views(cells@) =~= header_views(prev).push(group_header_cell(cols@[i as int], order)));
        let ghost done = cols@.take(i as int).map_values(|c: GroupColumn| group_header_cell(c, order));
        assert(cols@.take(i as int + 1).map_values(|c: GroupColumn| group_header_cell(c, order)) =~= done.push(group_header_cell(cols@[i as int], order)));
        assert(header_views(cells@) =~= lead + done.push(group_header_cell(cols@[i as int], order)));
        i = i + 1;
    }
    assert(cols@.take(i as int) =~= cols@);
    cells
}

/// A row's name cell: the name cut to one less than the column width and
/// left-aligned in it.
pub open spec fn spec_name_cell(display: Seq<char>, name_width: nat) -> Seq<char> {
    let room: nat = if name_width > 0 { (name_width - 1) as nat } else { 0 };
    pad_right_spec(truncate_spec(display, room), name_width)
}

/// A row's name cell.
pub fn name_cell(display: &str, name_width: usize) -> (r: String)
    ensures
        r@ == spec_name_cell(display@, name_width as nat),
{
    let room: usize = if name_width > 0 { name_width - 1 } else { 0 };
    let t = truncate(display, room);
    let mut v: Vec<char> = Vec::new();
    push_padded_right(&mut v, t.as_str(), name_width);
    string_from_chars(&v)
}

/// Marker in front of a name whose identity was inferred locally.
pub open spec fn approx_prefix() -> Seq<char> {
    seq!['\u{2248}', ' ']
}

/// What a flat row shows as the model's name: its name (its id when the
/// name is empty), marked when its identity was inferred.
pub open spec fn spec_flat_display_name(name: Seq<char>, id: Seq<char>, identity: Option<ModelIdentityProvenance>) -> Seq<char> {
    let raw = if name.len() == 0 { id } else { name };
    match identity {
        Some(p) => if p.spec_is_inferred() { approx_prefix() + raw } else { raw },
        None => raw,
    }
}

/// What a flat row shows as the model's name.
pub fn flat_display_name(entry: &ModelEntry) -> (r: String)
    ensures
        r@ == spec_flat_display_name(entry.model.name@, entry.id@, entry.identity),
{
    let name = crate::text::chars_of(entry.model.name.as_str());
    let mut v: Vec<char> = Vec::new();
    let inferred = match entry.identity {
        Some(p) => p.is_inferred(),
        None => false,
    };
    if inferred {
        v.push('\u{2248}');
        v.push(' ');
    }
    if name.len() == 0 {
        push_str(&mut v, entry.id.as_str());
    } else {
        push_str(&mut v, entry.model.name.as_str());
    }
    assert(v@ =~= spec_flat_display_name(entry.model.name@, entry.id@, entry.identity));
    string_from_chars(&v)
}

/// Display name of the provider with id `id` (the last one listed when ids
/// repeat), or the id itself when no provider has it.
pub open spec fn provider_display(ps: Seq<ProviderInfo>, id: Seq<char>) -> Seq<char>
    decreases ps.len(),
{
    if ps.len() == 0 {
        id
    } else if ps.last().id@ == id {
        ps.last().name@
    } else {
        provider_display(ps.drop_last(), id)
    }
}

/// The Provider cell of a flat row: the provider's display name cut and
/// left-aligned to 14 characters after a one-space gap.
pub open spec fn spec_provider_cell(ps: Seq<ProviderInfo>, id: Seq<char>) -> Seq<char> {
    seq![' '] + pad_right_spec(truncate_spec(provider_display(ps, id), 14), 14)
}

/// The Provider cell of a flat row.
pub fn provider_cell(providers: &Vec<ProviderInfo>, provider_id: &str) -> (r: String)
    ensures
        r@ == spec_provider_cell(providers@, provider_id@),
{
    let mut i: usize = providers.len();
    let mut found: Option<usize> = None;
    assert(providers@.take(i as int) =~= providers@);
    while i > 0 && found.is_none()
        invariant
            i <= providers@.len(),
            found is None ==> provider_display(providers@, provider_id@) == provider_display(providers@.take(i as int), provider_id@),
            found matches Some(k) ==> k < providers@.len() && provider_display(providers@, provider_id@) == providers@[k as int].name@,
        decreases i,
    {
        let ghost pre = providers@.take(i as int);
        assert(pre.drop_last() =~= providers@.take(i as int - 1));
        assert(pre.last() == providers@[i as int - 1]);
        if crate::text::str_eq(providers[i - 1].id.as_str(), provider_id) {
            found = Some(i - 1);
        }
        i = i - 1;
    }
    let name: &str = match found {
        Some(k) => providers[k].name.as_str(),
        None => provider_id,
    };
    proof {
        if found is None {
            assert(providers@.take(i as int) =~= Seq::<ProviderInfo>::empty());
        }
    }
    let t = truncate(name, 14);
    let mut v: Vec<char> = Vec::new();
    v.push(' ');
    push_padded_right(&mut v, t.as_str(), 14);
    string_from_chars(&v)
}

/// A right-aligned value cell of width `w` after a one-space gap.
pub open spec fn spec_value_cell(text: Seq<char>, w: nat) -> Seq<char> {
    seq![' '] + pad_left_spec(text, w)
}

/// A right-aligned value cell (prices, context, provider counts).
pub fn value_cell(text: &str, w: usize) -> (r: String)
    ensures
        r@ == spec_value_cell(text@, w as nat),
{
    let mut v: Vec<char> = Vec::new();
    v.push(' ');
    push_padded_left(&mut v, text, w);
    string_from_chars(&v)
}

/// Every member of the group was joined only as an inferred peer.
pub open spec fn spec_peer_only(s: Seq<ModelIdentityProvenance>) -> bool {
    forall|i: int| 0 <= i < s.len() ==> s[i] == ModelIdentityProvenance::InferredPeer
}

/// What a grouped row shows as the model's name: marked when every member
/// is an inferred peer.
pub open spec fn spec_group_display_name(g: ModelGroup) -> Seq<char> {
    if spec_peer_only(g.member_provenance@) { approx_prefix() + g.name@ } else { g.name@ }
}

/// What a grouped row shows as the model's name.
pub fn group_display_name(g: &ModelGroup) -> (r: String)
    ensures
        r@ == spec_group_display_name(*g),
{
    let mut peer_only = true;
    let mut i: usize = 0;
    while i < g.member_provenance.len()
        invariant
            i <= g.member_provenance@.len(),
            peer_only == (forall|j: int| 0 <= j < i ==> g.member_provenance@[j] == ModelIdentityProvenance::InferredPeer),
        decreases g.member_provenance.len() - i,
    {
        if g.member_provenance[i] != ModelIdentityProvenance::InferredPeer {
            peer_only = false;
        }
        i = i + 1;
    }
    let mut v: Vec<char> = Vec::new();
    if peer_only {
        v.push('\u{2248}');
        v.push(' ');
    }
    push_str(&mut v, g.name.as_str());
    assert(v@ =~= spec_group_display_name(*g));
    string_from_chars(&v)
}

/// The Lab cell of a grouped row and whether it is dimmed (no lab known):
/// the lab, or an em dash, cut and left-aligned to 15 characters.
pub open spec fn spec_lab_cell(lab: Option<Seq<char>>) -> (Seq<char>, bool) {
    let text = match lab { Some(l) => l, None => seq!['\u{2014}'] };
    (seq![' '] + pad_right_spec(truncate_spec(text, 15), 15), lab is None)
}

/// The Lab cell of a grouped row and whether it is dimmed.
pub fn lab_cell(g: &ModelGroup) -> (r: (String, bool))
    ensures
        (r.0@, r.1) == spec_lab_cell(match g.lab { Some(l) => Some(l@), None => None }),
{
    let mut dash: Vec<char> = Vec::new();
    dash.push('\u{2014}');
    let dash_s = string_from_chars(&dash);
    let (text, dim): (&str, bool) = match &g.lab {
        Some(l) => (l.as_str(), false),
        None => (dash_s.as_str(), true),
    };
    let t = truncate(text, 15);
    let mut v: Vec<char> = Vec::new();
    v.push(' ');
    push_padded_right(&mut v, t.as_str(), 15);
    (string_from_chars(&v), dim)
}

/// The Providers cell of a grouped row: the provider count right-aligned.
pub fn providers_cell(g: &ModelGroup) -> (r: String)
    ensures
        r@ == spec_value_cell(decimal(g.provider_count as nat), 10),
{
    let n = u64_to_decimal(g.provider_count as u64);
    value_cell(n.as_str(), 10)
}

/// Provider ids of the entries, in list order.
pub open spec fn provider_ids(es: Seq<ModelEntry>) -> Seq<Seq<char>> {
    es.map_values(|e: ModelEntry| e.provider_id@)
}

/// Number of distinct providers among the entries.
pub open spec fn distinct_providers(es: Seq<ModelEntry>) -> nat {
    provider_ids(es).to_set().len()
}

/// Number of distinct providers among the entries.
pub fn count_distinct_providers(es: &Vec<ModelEntry>) -> (n: usize)
    ensures
        n == distinct_providers(es@),
{
    let ghost ids = provider_ids(es@);
    let mut seen: Vec<&str> = Vec::new();
    let mut i: usize = 0;
    while i < es.len()
        invariant
            i <= es@.len(),
            ids == provider_ids(es@),
            seen@.len() <= i,
            seen@.map_values(|p: &str| p@).no_duplicates(),
            seen@.map_values(|p: &str| p@).to_set() == ids.take(i as int).to_set(),
        decreases es.len() - i,
    {
        let id = es[i].provider_id.as_str();
        let ghost sv = seen@.map_values(|p: &str| p@);
        let mut present = false;
        let mut j: usize = 0;
        while j < seen.len()
            invariant
                j <= seen@.len(),
                sv == seen@.map_values(|p: &str| p@),
                present == (exists|k: int| 0 <= k < j && sv[k] == id@),
            decreases seen.len() - j,
        {
            assert(sv[j as int] == seen@[j as int]@);
            if crate::text::str_eq(seen[j], id) {
                present = true;
            }
            j = j + 1;
        }
        assert(ids.take(i as int + 1) =~= ids.take(i as int).push(id@));
        proof {
            ids.take(i as int).lemma_push_to_set_commute(id@);
            sv.lemma_push_to_set_commute(id@);
        }
        if !present {
            seen.push(id);
            assert(seen@.map_values(|p: &str| p@) =~= sv.push(id@));
            assert forall|a: int, b: int| 0 <= a < b < sv.push(id@).len() implies sv.push(id@)[a] != sv.push(id@)[b] by {
                if b == sv.len() {
                    assert(sv[a] != id@);
                }
            }
        } else {
            let ghost k = choose|k: int| 0 <= k < j && sv[k] == id@;
            assert(sv.to_set().contains(id@));
            assert(sv.to_set().insert(id@) =~= sv.to_set());
        }
        i = i + 1;
    }
    assert(ids.take(i as int) =~= ids);
    proof {
        seen@.map_values(|p: &str| p@).unique_seq_to_set();
    }
    seen.len()
}

/// The count shown in the flat list's title: in a drilled group the number
/// of distinct providers ("1 provider", "3 providers"), else the row count.
pub open spec fn spec_flat_count(mode: ListMode, es: Seq<ModelEntry>) -> Seq<char> {
    if mode == ListMode::Offerings {
        decimal(distinct_providers(es)) + " provider"@ + if distinct_providers(es) == 1 { Seq::empty() } else { seq!['s'] }
    } else {
        decimal(es.len())
    }
}

/// The label of the flat list's title: the drilled group's breadcrumb, the
/// selected provider's name, or "Models · flat".
pub open spec fn spec_flat_label(app: ModelsApp, ps: Seq<ProviderInfo>) -> Seq<char> {
    if app.spec_list_mode() == ListMode::Offerings {
        "Models \u{25B8} "@ + match app.drill_name { Some(n) => n@, None => "?"@ }
    } else {
        match app.spec_selected_provider(ps) {
            Some(pi) => ps[pi].name@,
            None => "Models \u{00B7} flat"@,
        }
    }
}

/// Title of the flat (or drilled) list.
pub open spec fn spec_flat_title(app: ModelsApp, ps: Seq<ProviderInfo>) -> Seq<char> {
    spec_list_title(
        spec_flat_label(app, ps),
        spec_flat_count(app.spec_list_mode(), app.filtered_models@),
        app.search_query@,
        join_comma(active_filter_names(app.filters, app.provider_category_filter)),
        spec_sort_indicator(app.sort_order, app.sort_ascending),
    )
}

/// Title of the flat (or drilled) list.
pub fn flat_title(app: &ModelsApp, providers: &Vec<ProviderInfo>) -> (r: String)
    ensures
        r@ == spec_flat_title(*app, providers@),
{
    let mode = app.list_mode();
    let mut label: Vec<char> = Vec::new();
    if mode == ListMode::Offerings {
        push_str(&mut label, "Models \u{25B8} ");
        match &app.drill_name {
            Some(n) => push_str(&mut label, n.as_str()),
            None => push_str(&mut label, "?"),
        }
    } else {
        match app.selected_provider_data(providers) {
            Some(p) => push_str(&mut label, p.name.as_str()),
            None => push_str(&mut label, "Models \u{00B7} flat"),
        }
    }
    let mut count: Vec<char> = Vec::new();
    if mode == ListMode::Offerings {
        let n = count_distinct_providers(&app.filtered_models);
        crate::formatting::push_decimal(&mut count, n as u64);
        push_str(&mut count, " provider");
        if n != 1 {
            count.push('s');
        }
    } else {
        crate::formatting::push_decimal(&mut count, app.filtered_models.len() as u64);
    }
    let label_s = string_from_chars(&label);
    let count_s = string_from_chars(&count);
    let filters = format_filters(&app.filters, app.provider_category_filter);
    let sort = sort_indicator(app.sort_order, app.sort_ascending);
    assert(count@ =~= spec_flat_count(mode, app.filtered_models@));
    assert(label@ =~= spec_flat_label(*app, providers@));
    list_title(label_s.as_str(), count_s.as_str(), app.search_query.as_str(), filters.as_str(), sort.as_str())
}

/// Title of the grouped list: "Models" and the number of groups.
pub open spec fn spec_group_title(app: ModelsApp) -> Seq<char> {
    spec_list_title(
        "Models"@,
        decimal(app.groups@.len()),
        app.search_query@,
        join_comma(active_filter_names(app.filters, app.provider_category_filter)),
        spec_sort_indicator(app.sort_order, app.sort_ascending),
    )
}

/// Title of the grouped list.
pub fn group_title(app: &ModelsApp) -> (r: String)
    ensures
        r@ == spec_group_title(*app),
{
    let count = u64_to_decimal(app.groups.len() as u64);
    let filters = format_filters(&app.filters, app.provider_category_filter);
    let sort = sort_indicator(app.sort_order, app.sort_ascending);
    list_title("Models", count.as_str(), app.search_query.as_str(), filters.as_str(), sort.as_str())
}

/// What a grouped row's Context cell shows for a min-max range of context
/// windows.
#[derive(Debug, Clone, Copy, PartialEq, Eq, Structural)]
pub enum RangeParts {
    /// No member reports a window: an em dash.
    Missing,
    /// One value: equal ends, or ends within 5% of the larger one.
    Single(u64),
    /// Both ends, as "lo–hi".
    Span(u64, u64),
}

/// Windows within 5% of each other collapse to the larger one.
pub open spec fn spec_context_range_parts(range: Option<(u64, u64)>) -> RangeParts {
    match range {
        None => RangeParts::Missing,
        Some((lo, hi)) => if lo == hi || (hi - lo) * 20 < hi { RangeParts::Single(hi) } else { RangeParts::Span(lo, hi) },
    }
}

/// What a grouped row's Context cell shows for a range of context windows.
pub fn context_range_parts(range: Option<(u64, u64)>) -> (r: RangeParts)
    requires
        range matches Some((lo, hi)) ==> lo <= hi && (hi - lo) * 20 <= u64::MAX,
    ensures
        r == spec_context_range_parts(range),
{
    match range {
        None => RangeParts::Missing,
        Some((lo, hi)) => if lo == hi || (hi - lo) * 20 < hi { RangeParts::Single(hi) } else { RangeParts::Span(lo, hi) },
    }
}

/// Popup size `(width, height)` of the provider picker: 46 wide and as tall
/// as its rows plus search line and border, within the area less a margin
/// of four (never lower than 6).
pub open spec fn spec_provider_picker_size(rows: nat, area_w: u16, area_h: u16) -> (u16, u16) {
    let w_room: int = if area_w > 4 { area_w - 4 } else { 0 };
    let h_room: int = area_h - 4;
    let want: int = rows as int + 3;
    let h: int = if want < 6 { 6 } else if want > h_room { h_room } else { want };
    ((if 46 < w_room { 46 } else { w_room }) as u16, h as u16)
}

/// Popup size of the provider picker.
pub fn provider_picker_size(rows: usize, area_w: u16, area_h: u16) -> (r: (u16, u16))
    requires
        rows < 65533,
        area_h >= 10,
    ensures
        r == spec_provider_picker_size(rows as nat, area_w, area_h),
{
    let want: u16 = (rows as u16) + 3;
    let h_room: u16 = area_h - 4;
    let h = if want < 6 { 6 } else if want > h_room { h_room } else { want };
    let w_room = area_w.saturating_sub(4);
    (if 46 < w_room { 46 } else { w_room }, h)
}

/// Title of the provider picker: the number of provider rows (the "All"
/// row is not counted).
pub fn provider_picker_title(rows: usize) -> (r: String)
    ensures
        r@ == " Provider ("@ + decimal(if rows > 0 { (rows - 1) as nat } else { 0 }) + ") "@,
{
    let mut v: Vec<char> = Vec::new();
    push_str(&mut v, " Provider (");
    crate::formatting::push_decimal(&mut v, if rows > 0 { (rows - 1) as u64 } else { 0 });
    push_str(&mut v, ") ");
    string_from_chars(&v)
}

/// Number of models offered by the first `n` providers.
pub open spec fn models_upto(ps: Seq<ProviderInfo>, n: nat) -> nat
    decreases n,
{
    if n == 0 || n > ps.len() { 0 } else { models_upto(ps, (n - 1) as nat) + ps[n - 1].models@.len() }
}

/// The picker's "All" row: every offering of the catalog.
pub fn all_models_row(providers: &Vec<ProviderInfo>) -> (r: String)
    requires
        models_upto(providers@, providers@.len()) <= u64::MAX,
    ensures
        r@ == "All models ("@ + decimal(models_upto(providers@, providers@.len())) + ")"@,
{
    let mut total: u64 = 0;
    let mut i: usize = 0;
    while i < providers.len()
        invariant
            i <= providers@.len(),
            total == models_upto(providers@, i as nat),
            models_upto(providers@, providers@.len()) <= u64::MAX,
        decreases providers.len() - i,
    {
        proof {
            lemma_models_upto_mono(providers@, (i + 1) as nat, providers@.len());
        }
        total = total + providers[i].models.len() as u64;
        i = i + 1;
    }
    let mut v: Vec<char> = Vec::new();
    push_str(&mut v, "All models (");
    crate::formatting::push_decimal(&mut v, total);
    push_str(&mut v, ")");
    string_from_chars(&v)
}

proof fn lemma_models_upto_mono(ps: Seq<ProviderInfo>, a: nat, b: nat)
    requires
        a <= b <= ps.len(),
    ensures
        models_upto(ps, a) <= models_upto(ps, b),
    decreases b,
{
    if a < b {
        lemma_models_upto_mono(ps, a, (b - 1) as nat);
    }
}

/// The capability flags of a flat row: R, T, F in their colors when the
/// model reasons, calls tools or takes files (a dimmed dot otherwise), then
/// O in green for open weights or C in red for closed.
pub open spec fn spec_flat_caps(reasoning: bool, tools: bool, files: bool, open: bool) -> Seq<TextSpanView> {
    let dot = TextSpanView { text: seq!['\u{00B7}'], color: Some(TermColor::DarkGray) };
    seq![
        if reasoning { TextSpanView { text: seq!['R'], color: Some(TermColor::Cyan) } } else { dot },
        if tools { TextSpanView { text: seq!['T'], color: Some(TermColor::Yellow) } } else { dot },
        if files { TextSpanView { text: seq!['F'], color: Some(TermColor::Magenta) } } else { dot },
        if open { TextSpanView { text: seq!['O'], color: Some(TermColor::Green) } } else { TextSpanView { text: seq!['C'], color: Some(TermColor::Red) } },
    ]
}

fn cap_span(on: bool, c: char, color: TermColor) -> (r: TextSpan)
    ensures
        span_view(r) == (if on { TextSpanView { text: seq![c], color: Some(color) } }
            else { TextSpanView { text: seq!['\u{00B7}'], color: Some(TermColor::DarkGray) } }),
{
    let mut v: Vec<char> = Vec::new();
    if on {
        v.push(c);
        TextSpan { text: string_from_chars(&v), color: Some(color) }
    } else {
        v.push('\u{00B7}');
        TextSpan { text: string_from_chars(&v), color: Some(TermColor::DarkGray) }
    }
}

/// The capability flags of a flat row.
pub fn flat_caps(m: &ModelInfo) -> (r: Vec<TextSpan>)
    ensures
        span_views(r@) == spec_flat_caps(m.reasoning, m.tool_call, m.attachment, m.open_weights),
{
    let mut r: Vec<TextSpan> = Vec::new();
    r.push(cap_span(m.reasoning, 'R', TermColor::Cyan));
    r.push(cap_span(m.tool_call, 'T', TermColor::Yellow));
    r.push(cap_span(m.attachment, 'F', TermColor::Magenta));
    let mut o: Vec<char> = Vec::new();
    if m.open_weights {
        o.push('O');
        r.push(TextSpan { text: string_from_chars(&o), color: Some(TermColor::Green) });
    } else {
        o.push('C');
        r.push(TextSpan { text: string_from_chars(&o), color: Some(TermColor::Red) });
    }
    assert(span_views(r@) =~= spec_flat_caps(m.reasoning, m.tool_call, m.attachment, m.open_weights));
    r
}

} // verus!
