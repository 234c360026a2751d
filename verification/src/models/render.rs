//! Layout pieces of the models tab: list column widths, capability cells and
//! the active-filter summary.

use vstd::prelude::*;
use crate::palette::TermColor;
use crate::text::{chars_of, string_from_chars};
use crate::models::app::{Filters, ProviderCategory};

verus! {

/// Optional columns of the flat model list.
#[derive(Debug, Clone, Copy, PartialEq, Eq, Structural)]
pub enum ModelListColumn {
    Provider,
    Input,
    Output,
    Context,
}

impl ModelListColumn {
    /// Total column width including its one-space leading gap: 15 for the
    /// provider name, 9 for the numeric columns.
    pub fn width(self) -> (r: u16)
        ensures
            r == match self {
                ModelListColumn::Provider => 15u16,
                _ => 9u16,
            },
    {
        match self {
            ModelListColumn::Provider => 15,
            ModelListColumn::Input | ModelListColumn::Output | ModelListColumn::Context => 9,
        }
    }
}

/// Capability cell of a grouped row under the majority-plus-dim policy: the
/// majority value (strictly more than half) picks the symbol and color; a
/// split tally (some but not all) dims the color.
pub open spec fn spec_group_cap_char(
    tally: (usize, usize),
    active: (&'static str, TermColor),
    inactive: (&'static str, TermColor),
) -> (&'static str, TermColor) {
    let (yes, total) = tally;
    let chosen = if yes * 2 > total { active } else { inactive };
    if yes > 0 && yes < total { (chosen.0, TermColor::DarkGray) } else { chosen }
}

/// Capability cell of a grouped row.
pub fn group_cap_char(
    tally: (usize, usize),
    active: (&'static str, TermColor),
    inactive: (&'static str, TermColor),
) -> (r: (&'static str, TermColor))
    requires
        tally.0 * 2 <= usize::MAX,
    ensures
        r == spec_group_cap_char(tally, active, inactive),
{
    let (yes, total) = tally;
    let majority_active = yes * 2 > total;
    let mixed = yes > 0 && yes < total;
    let (ch, color) = if majority_active { active } else { inactive };
    if mixed {
        (ch, TermColor::DarkGray)
    } else {
        (ch, color)
    }
}

impl ProviderCategory {
    /// The category after this one: all, origin, cloud, inference, gateway,
    /// tool, and around.
    pub open spec fn spec_next(self) -> ProviderCategory {
        match self {
            ProviderCategory::All => ProviderCategory::Origin,
            ProviderCategory::Origin => ProviderCategory::Cloud,
            ProviderCategory::Cloud => ProviderCategory::Inference,
            ProviderCategory::Inference => ProviderCategory::Gateway,
            ProviderCategory::Gateway => ProviderCategory::Tool,
            ProviderCategory::Tool => ProviderCategory::All,
        }
    }

    /// Cycle to the next category filter.
    pub fn next(self) -> (r: ProviderCategory)
        ensures
            r == self.spec_next(),
    {
        match self {
            ProviderCategory::All => ProviderCategory::Origin,
            ProviderCategory::Origin => ProviderCategory::Cloud,
            ProviderCategory::Cloud => ProviderCategory::Inference,
            ProviderCategory::Inference => ProviderCategory::Gateway,
            ProviderCategory::Gateway => ProviderCategory::Tool,
            ProviderCategory::Tool => ProviderCategory::All,
        }
    }

    /// Display label.
    pub open spec fn spec_label(self) -> Seq<char> {
        match self {
            ProviderCategory::All => "All"@,
            ProviderCategory::Origin => "Origin"@,
            ProviderCategory::Cloud => "Cloud"@,
            ProviderCategory::Inference => "Inference"@,
            ProviderCategory::Gateway => "Gateway"@,
            ProviderCategory::Tool => "Tool"@,
        }
    }

    /// Display label.
    pub fn label(self) -> (r: &'static str)
        ensures
            r@ == self.spec_label(),
    {
        match self {
            ProviderCategory::All => "All",
            ProviderCategory::Origin => "Origin",
            ProviderCategory::Cloud => "Cloud",
            ProviderCategory::Inference => "Inference",
            ProviderCategory::Gateway => "Gateway",
            ProviderCategory::Tool => "Tool",
        }
    }
}

/// Join `parts` with ", ".
pub open spec fn join_comma(parts: Seq<Seq<char>>) -> Seq<char>
    decreases parts.len(),
{
    if parts.len() == 0 {
        Seq::empty()
    } else if parts.len() == 1 {
        parts[0]
    } else {
        join_comma(parts.drop_last()) + seq![',', ' '] + parts.last()
    }
}

/// The names of the active filters, in order: reasoning, tools, open, free,
/// then the provider category unless it is "All".
pub open spec fn active_filter_names(filters: Filters, category: ProviderCategory) -> Seq<Seq<char>> {
    let a: Seq<Seq<char>> = if filters.reasoning { seq!["reasoning"@] } else { Seq::empty() };
    let b: Seq<Seq<char>> = if filters.tools { a.push("tools"@) } else { a };
    let c: Seq<Seq<char>> = if filters.open_weights { b.push("open"@) } else { b };
    let d: Seq<Seq<char>> = if filters.free { c.push("free"@) } else { c };
    if category != ProviderCategory::All { d.push(category.spec_label()) } else { d }
}

/// Join strings with ", ".
pub fn join_comma_exec(parts: &Vec<&str>) -> (r: String)
    ensures
        r@ == join_comma(parts@.map_values(|p: &str| p@)),
{
    let ghost pv = parts@.map_values(|p: &str| p@);
    let mut out: Vec<char> = Vec::new();
    let mut k: usize = 0;
    while k < parts.len()
        invariant
            k <= parts.len(),
            pv == parts@.map_values(|p: &str| p@),
            out@ == join_comma(pv.take(k as int)),
        decreases parts.len() - k,
    {
        let p = chars_of(parts[k]);
        let ghost before = out@;
        if k > 0 {
            out.push(',');
            out.push(' ');
        }
        let ghost mid = out@;
        let mut i: usize = 0;
        while i < p.len()
            invariant
                i <= p.len(),
                out@ == mid + p@.take(i as int),
            decreases p.len() - i,
        {
            out.push(p[i]);
            i = i + 1;
            assert(out@ =~= mid + p@.take(i as int));
        }
        assert(p@.take(p@.len() as int) =~= p@);
        assert(pv.take(k + 1).drop_last() =~= pv.take(k as int));
        assert(pv.take(k + 1).last() == pv[k as int]);
        if k == 0 {
            assert(before =~= Seq::<char>::empty());
            assert(out@ =~= p@);
        } else {
            assert(out@ =~= before + seq![',', ' '] + p@);
        }
        k = k + 1;
    }
    assert(pv.take(parts.len() as int) =~= pv);
    string_from_chars(&out)
}

/// Summary of the active filters, e.g. "reasoning, free, Cloud" (empty when
/// none is active).
pub fn format_filters(filters: &Filters, category: ProviderCategory) -> (r: String)
    ensures
        r@ == join_comma(active_filter_names(*filters, category)),
{
    let mut active: Vec<&str> = Vec::new();
    if filters.reasoning {
        active.push("reasoning");
    }
    if filters.tools {
        active.push("tools");
    }
    if filters.open_weights {
        active.push("open");
    }
    if filters.free {
        active.push("free");
    }
    if category != ProviderCategory::All {
        active.push(category.label());
    }
    assert(active@.map_values(|p: &str| p@) =~= active_filter_names(*filters, category));
    join_comma_exec(&active)
}

} // verus!
