//! Text of the model detail panel that does not depend on prices: the
//! identity line of an offering or a grouped row, and the padding of the
//! two-column label/value grid.

use vstd::prelude::*;
use crate::palette::{TermColor, TextSpan, TextSpanView, span_views};
use crate::formatting::{decimal, push_decimal};
use crate::text::{chars_of, push_str, spaces, space_string, string_from_chars};
use crate::models::render::join_comma;
use crate::models::app::{InferenceRejection, ModelEntry, ModelIdentityProvenance, ModelsApp, ProviderCategory, ProviderInfo, find_provider, provider_with_id};
use crate::models::grouping::ModelGroup;
use crate::sorting::{SortVal, SortValView, insertion_sorted, key_views, sort_by_keys, all_below, val_view};

verus! {

/// Identity line of a single offering, with its color.
pub open spec fn spec_entry_identity(p: ModelIdentityProvenance) -> (Seq<char>, TermColor) {
    match p {
        ModelIdentityProvenance::AuthoritativeRef
        | ModelIdentityProvenance::AuthoritativeDirectId
        | ModelIdentityProvenance::AuthoritativeScopedId => ("models.dev authoritative"@, TermColor::Gray),
        ModelIdentityProvenance::InferredCanonical => ("inferred canonical match"@, TermColor::LightCyan),
        ModelIdentityProvenance::InferredQualifiedCanonical =>
            ("inferred canonical match (creator-qualified)"@, TermColor::LightCyan),
        ModelIdentityProvenance::InferredExactPairCanonical =>
            ("inferred canonical match (exact authoritative pair)"@, TermColor::LightCyan),
        ModelIdentityProvenance::InferredOneSidedCreatorCanonical =>
            ("inferred canonical match (one-sided creator)"@, TermColor::LightCyan),
        ModelIdentityProvenance::InferredCrossAliasCanonical =>
            ("inferred canonical match (cross-alias)"@, TermColor::LightCyan),
        ModelIdentityProvenance::InferredFullIdCanonical =>
            ("inferred canonical match (full-id alias)"@, TermColor::LightCyan),
        ModelIdentityProvenance::InferredPeer => ("inferred peer group (not canonical)"@, TermColor::DarkGray),
        ModelIdentityProvenance::Unlinked(reason) => ("unlinked \u{2014} "@ + reason.spec_label(), TermColor::DarkGray),
    }
}

/// Identity line of a single offering (flat or drilled list), with its color.
pub fn entry_identity(p: ModelIdentityProvenance) -> (r: (String, TermColor))
    ensures
        (r.0@, r.1) == spec_entry_identity(p),
{
    match p {
        ModelIdentityProvenance::AuthoritativeRef
        | ModelIdentityProvenance::AuthoritativeDirectId
        | ModelIdentityProvenance::AuthoritativeScopedId => ("models.dev authoritative".to_string(), TermColor::Gray),
        ModelIdentityProvenance::InferredCanonical => ("inferred canonical match".to_string(), TermColor::LightCyan),
        ModelIdentityProvenance::InferredQualifiedCanonical =>
            ("inferred canonical match (creator-qualified)".to_string(), TermColor::LightCyan),
        ModelIdentityProvenance::InferredExactPairCanonical =>
            ("inferred canonical match (exact authoritative pair)".to_string(), TermColor::LightCyan),
        ModelIdentityProvenance::InferredOneSidedCreatorCanonical =>
            ("inferred canonical match (one-sided creator)".to_string(), TermColor::LightCyan),
        ModelIdentityProvenance::InferredCrossAliasCanonical =>
            ("inferred canonical match (cross-alias)".to_string(), TermColor::LightCyan),
        ModelIdentityProvenance::InferredFullIdCanonical =>
            ("inferred canonical match (full-id alias)".to_string(), TermColor::LightCyan),
        ModelIdentityProvenance::InferredPeer => ("inferred peer group (not canonical)".to_string(), TermColor::DarkGray),
        ModelIdentityProvenance::Unlinked(reason) => {
            let mut v: Vec<char> = Vec::new();
            push_str(&mut v, "unlinked \u{2014} ");
            push_str(&mut v, reason.label());
            (string_from_chars(&v), TermColor::DarkGray)
        },
    }
}

/// How a grouped row's members were linked, one bucket per provenance kind
/// that the summary counts separately.
#[derive(Debug, Clone, Copy, PartialEq, Eq, Structural)]
pub enum ProvenanceKind {
    Authoritative,
    Canonical,
    Qualified,
    ExactPair,
    OneSided,
    CrossAlias,
    FullId,
    Peer,
    Unlinked,
}

pub open spec fn kind_of(p: ModelIdentityProvenance) -> ProvenanceKind {
    match p {
        ModelIdentityProvenance::AuthoritativeRef
        | ModelIdentityProvenance::AuthoritativeDirectId
        | ModelIdentityProvenance::AuthoritativeScopedId => ProvenanceKind::Authoritative,
        ModelIdentityProvenance::InferredCanonical => ProvenanceKind::Canonical,
        ModelIdentityProvenance::InferredQualifiedCanonical => ProvenanceKind::Qualified,
        ModelIdentityProvenance::InferredExactPairCanonical => ProvenanceKind::ExactPair,
        ModelIdentityProvenance::InferredOneSidedCreatorCanonical => ProvenanceKind::OneSided,
        ModelIdentityProvenance::InferredCrossAliasCanonical => ProvenanceKind::CrossAlias,
        ModelIdentityProvenance::InferredFullIdCanonical => ProvenanceKind::FullId,
        ModelIdentityProvenance::InferredPeer => ProvenanceKind::Peer,
        ModelIdentityProvenance::Unlinked(_) => ProvenanceKind::Unlinked,
    }
}

/// Number of members of kind `k`.
pub open spec fn count_kind(s: Seq<ModelIdentityProvenance>, k: ProvenanceKind) -> nat
    decreases s.len(),
{
    if s.len() == 0 {
        0
    } else {
        count_kind(s.drop_last(), k) + if kind_of(s.last()) == k { 1nat } else { 0nat }
    }
}

/// Reason of the first unlinked member, if any.
pub open spec fn first_unlinked(s: Seq<ModelIdentityProvenance>) -> Option<InferenceRejection>
    decreases s.len(),
{
    if s.len() == 0 {
        None
    } else {
        match s[0] {
            ModelIdentityProvenance::Unlinked(r) => Some(r),
            _ => first_unlinked(s.drop_first()),
        }
    }
}

/// Adds "{count} {label}" to a comma-separated note when `count > 0`.
pub open spec fn append_note(acc: Seq<char>, count: nat, label: Seq<char>) -> Seq<char> {
    if count == 0 {
        acc
    } else if acc.len() == 0 {
        decimal(count) + " "@ + label
    } else {
        acc + ", "@ + decimal(count) + " "@ + label
    }
}

/// The breakdown of the locally inferred members by how they were linked.
pub open spec fn inference_notes(s: Seq<ModelIdentityProvenance>) -> Seq<char> {
    append_note(
        append_note(
            append_note(
                append_note(
                    append_note(Seq::empty(), count_kind(s, ProvenanceKind::Qualified), "creator-qualified"@),
                    count_kind(s, ProvenanceKind::ExactPair), "exact-pair"@),
                count_kind(s, ProvenanceKind::OneSided), "one-sided creator"@),
            count_kind(s, ProvenanceKind::CrossAlias), "cross-alias"@),
        count_kind(s, ProvenanceKind::FullId), "full-id alias"@)
}

/// Members linked by local canonical inference (peers excluded).
pub open spec fn inferred_count(s: Seq<ModelIdentityProvenance>) -> nat {
    count_kind(s, ProvenanceKind::Canonical) + count_kind(s, ProvenanceKind::Qualified)
        + count_kind(s, ProvenanceKind::ExactPair) + count_kind(s, ProvenanceKind::OneSided)
        + count_kind(s, ProvenanceKind::CrossAlias) + count_kind(s, ProvenanceKind::FullId)
}

pub open spec fn plural(n: nat) -> Seq<char> {
    if n == 1 { ""@ } else { "s"@ }
}

/// Identity line of a grouped row: a peer group is flagged as such; a group
/// with inferred members counts catalog links and inferences (with the
/// inference kinds in brackets); a fully catalog-linked group counts its
/// offerings; otherwise the first unlinked reason is given.
pub open spec fn spec_group_identity(s: Seq<ModelIdentityProvenance>) -> (Seq<char>, TermColor) {
    let auth = count_kind(s, ProvenanceKind::Authoritative);
    let inferred = inferred_count(s);
    let notes = inference_notes(s);
    if count_kind(s, ProvenanceKind::Peer) > 0 {
        ("inferred peer group (not canonical)"@, TermColor::DarkGray)
    } else if inferred > 0 {
        (decimal(auth) + " models.dev link"@ + plural(auth) + " + "@ + decimal(inferred) + " inferred"@
            + if notes.len() == 0 { Seq::empty() } else { " ("@ + notes + ")"@ },
         TermColor::LightCyan)
    } else if auth > 0 {
        ("models.dev authoritative ("@ + decimal(auth) + " offering"@ + plural(auth) + ")"@, TermColor::Gray)
    } else {
        ("unlinked \u{2014} "@ + match first_unlinked(s) {
            Some(r) => r.spec_label(),
            None => "insufficient evidence"@,
        }, TermColor::DarkGray)
    }
}

fn kind_exec(p: ModelIdentityProvenance) -> (k: ProvenanceKind)
    ensures
        k == kind_of(p),
{
    match p {
        ModelIdentityProvenance::AuthoritativeRef
        | ModelIdentityProvenance::AuthoritativeDirectId
        | ModelIdentityProvenance::AuthoritativeScopedId => ProvenanceKind::Authoritative,
        ModelIdentityProvenance::InferredCanonical => ProvenanceKind::Canonical,
        ModelIdentityProvenance::InferredQualifiedCanonical => ProvenanceKind::Qualified,
        ModelIdentityProvenance::InferredExactPairCanonical => ProvenanceKind::ExactPair,
        ModelIdentityProvenance::InferredOneSidedCreatorCanonical => ProvenanceKind::OneSided,
        ModelIdentityProvenance::InferredCrossAliasCanonical => ProvenanceKind::CrossAlias,
        ModelIdentityProvenance::InferredFullIdCanonical => ProvenanceKind::FullId,
        ModelIdentityProvenance::InferredPeer => ProvenanceKind::Peer,
        ModelIdentityProvenance::Unlinked(_) => ProvenanceKind::Unlinked,
    }
}

/// Number of members of kind `k`.
fn count_members(s: &Vec<ModelIdentityProvenance>, k: ProvenanceKind) -> (n: usize)
    ensures
        n == count_kind(s@, k),
{
    let mut n: usize = 0;
    let mut i: usize = 0;
    while i < s.len()
        invariant
            i <= s@.len(),
            n <= i,
            n == count_kind(s@.take(i as int), k),
        decreases s.len() - i,
    {
        assert(s@.take(i as int + 1).drop_last() =~= s@.take(i as int));
        if kind_exec(s[i]) == k {
            n = n + 1;
        }
        i = i + 1;
    }
    assert(s@.take(i as int) =~= s@);
    n
}

/// Reason of the first unlinked member, if any.
fn first_unlinked_reason(s: &Vec<ModelIdentityProvenance>) -> (r: Option<InferenceRejection>)
    ensures
        r == first_unlinked(s@),
{
    let mut i: usize = 0;
    assert(s@.subrange(0, s@.len() as int) =~= s@);
    while i < s.len()
        invariant
            i <= s@.len(),
            first_unlinked(s@) == first_unlinked(s@.subrange(i as int, s@.len() as int)),
        decreases s.len() - i,
    {
        assert(s@.subrange(i as int, s@.len() as int).drop_first()
            =~= s@.subrange(i as int + 1, s@.len() as int));
        match s[i] {
            ModelIdentityProvenance::Unlinked(reason) => {
                return Some(reason);
            },
            _ => {},
        }
        i = i + 1;
    }
    None
}

fn push_note(out: &mut Vec<char>, count: usize, label: &str)
    ensures
        final(out)@ == append_note(old(out)@, count as nat, label@),
{
    if count > 0 {
        if out.len() > 0 {
            push_str(out, ", ");
        }
        push_decimal(out, count as u64);
        push_str(out, " ");
        push_str(out, label);
    }
}

/// Identity line of a grouped row from its members' provenance.
pub fn group_identity(s: &Vec<ModelIdentityProvenance>) -> (r: (String, TermColor))
    ensures
        (r.0@, r.1) == spec_group_identity(s@),
{
    let auth = count_members(s, ProvenanceKind::Authoritative);
    let peer = count_members(s, ProvenanceKind::Peer);
    let canonical = count_members(s, ProvenanceKind::Canonical);
    let qualified = count_members(s, ProvenanceKind::Qualified);
    let exact = count_members(s, ProvenanceKind::ExactPair);
    let one_sided = count_members(s, ProvenanceKind::OneSided);
    let cross = count_members(s, ProvenanceKind::CrossAlias);
    let full_id = count_members(s, ProvenanceKind::FullId);
    let total = s.len();
    proof {
        lemma_kinds_partition(s@);
    }
    assert(total == s@.len());
    let inferred: usize = canonical + qualified + exact + one_sided + cross + full_id;
    let mut v: Vec<char> = Vec::new();
    if peer > 0 {
        push_str(&mut v, "inferred peer group (not canonical)");
        (string_from_chars(&v), TermColor::DarkGray)
    } else if inferred > 0 {
        let mut notes: Vec<char> = Vec::new();
        push_note(&mut notes, qualified, "creator-qualified");
        push_note(&mut notes, exact, "exact-pair");
        push_note(&mut notes, one_sided, "one-sided creator");
        push_note(&mut notes, cross, "cross-alias");
        push_note(&mut notes, full_id, "full-id alias");
        push_decimal(&mut v, auth as u64);
        push_str(&mut v, " models.dev link");
        if auth != 1 {
            push_str(&mut v, "s");
        }
        push_str(&mut v, " + ");
        push_decimal(&mut v, inferred as u64);
        push_str(&mut v, " inferred");
        if notes.len() > 0 {
            push_str(&mut v, " (");
            let ghost before = v@;
            let mut i: usize = 0;
            while i < notes.len()
                invariant
                    i <= notes@.len(),
                    v@ == before + notes@.take(i as int),
                decreases notes.len() - i,
            {
                v.push(notes[i]);
                i = i + 1;
                assert(v@ =~= before + notes@.take(i as int));
            }
            assert(notes@.take(i as int) =~= notes@);
            push_str(&mut v, ")");
        }
        proof {
            reveal_strlit("s");
            reveal_strlit("");
        }
        assert(v@ =~= spec_group_identity(s@).0);
        (string_from_chars(&v), TermColor::LightCyan)
    } else if auth > 0 {
        push_str(&mut v, "models.dev authoritative (");
        push_decimal(&mut v, auth as u64);
        push_str(&mut v, " offering");
        if auth != 1 {
            push_str(&mut v, "s");
        }
        push_str(&mut v, ")");
        proof {
            reveal_strlit("s");
            reveal_strlit("");
        }
        assert(v@ =~= spec_group_identity(s@).0);
        (string_from_chars(&v), TermColor::Gray)
    } else {
        push_str(&mut v, "unlinked \u{2014} ");
        match first_unlinked_reason(s) {
            Some(reason) => push_str(&mut v, reason.label()),
            None => push_str(&mut v, "insufficient evidence"),
        }
        (string_from_chars(&v), TermColor::DarkGray)
    }
}

/// Every member falls in exactly one bucket, so the buckets never count more
/// members than there are.
proof fn lemma_kinds_partition(s: Seq<ModelIdentityProvenance>)
    ensures
        count_kind(s, ProvenanceKind::Authoritative) + count_kind(s, ProvenanceKind::Canonical)
            + count_kind(s, ProvenanceKind::Qualified) + count_kind(s, ProvenanceKind::ExactPair)
            + count_kind(s, ProvenanceKind::OneSided) + count_kind(s, ProvenanceKind::CrossAlias)
            + count_kind(s, ProvenanceKind::FullId) + count_kind(s, ProvenanceKind::Peer)
            + count_kind(s, ProvenanceKind::Unlinked) == s.len(),
    decreases s.len(),
{
    if s.len() > 0 {
        lemma_kinds_partition(s.drop_last());
    }
}

/// A label-value pair of the two-column grid.
pub struct LabelValue<'a> {
    pub label: &'a str,
    pub value: &'a str,
    pub color: TermColor,
}

/// Length in bytes of the UTF-8 encoding of `s`.
pub open spec fn byte_len(s: Seq<char>) -> int {
    vstd::utf8::encode_utf8(s).len() as int
}

/// Spaces after a pair so that it fills `col_w` bytes (none when it is
/// already wider).
pub open spec fn pair_pad(col_w: nat, label: Seq<char>, value: Seq<char>) -> nat {
    let used = byte_len(label) + byte_len(value);
    if col_w > used { (col_w - used) as nat } else { 0 }
}

/// Two label-value pairs on one line, each padded to `col_w` bytes; labels
/// are gray, values in their own color.
pub open spec fn spec_two_pair_line(
    ll: Seq<char>, lv: Seq<char>, lc: TermColor,
    rl: Seq<char>, rv: Seq<char>, rc: TermColor,
    col_w: nat,
) -> Seq<TextSpanView> {
    seq![
        TextSpanView { text: ll, color: Some(TermColor::Gray) },
        TextSpanView { text: lv, color: Some(lc) },
        TextSpanView { text: spaces(pair_pad(col_w, ll, lv)), color: None },
        TextSpanView { text: rl, color: Some(TermColor::Gray) },
        TextSpanView { text: rv, color: Some(rc) },
        TextSpanView { text: spaces(pair_pad(col_w, rl, rv)), color: None },
    ]
}

fn pad_for(col_w: usize, label: &str, value: &str) -> (r: usize)
    ensures
        r == pair_pad(col_w as nat, label@, value@),
{
    let a = label.as_bytes().len();
    let b = value.as_bytes().len();
    if a > col_w || b > col_w - a {
        0
    } else {
        col_w - a - b
    }
}

/// Two label-value pairs on one line, each padded to `col_w` bytes.
pub fn two_pair_line(left: &LabelValue, right: &LabelValue, col_w: usize) -> (r: Vec<TextSpan>)
    ensures
        span_views(r@) == spec_two_pair_line(
            left.label@, left.value@, left.color, right.label@, right.value@, right.color, col_w as nat),
{
    let pad1 = pad_for(col_w, left.label, left.value);
    let pad2 = pad_for(col_w, right.label, right.value);
    let mut r: Vec<TextSpan> = Vec::new();
    r.push(TextSpan { text: left.label.to_string(), color: Some(TermColor::Gray) });
    r.push(TextSpan { text: left.value.to_string(), color: Some(left.color) });
    r.push(TextSpan { text: space_string(pad1), color: None });
    r.push(TextSpan { text: right.label.to_string(), color: Some(TermColor::Gray) });
    r.push(TextSpan { text: right.value.to_string(), color: Some(right.color) });
    r.push(TextSpan { text: space_string(pad2), color: None });
    assert(span_views(r@) =~= spec_two_pair_line(
        left.label@, left.value@, left.color, right.label@, right.value@, right.color, col_w as nat));
    r
}

pub open spec fn string_views(v: Seq<String>) -> Seq<Seq<char>> {
    v.map_values(|s: String| s@)
}

/// A modality list as shown in the detail panel: "text" when the catalog
/// lists none, else the modalities joined with ", ".
pub open spec fn spec_modality_text(list: Seq<Seq<char>>) -> Seq<char> {
    if list.len() == 0 { "text"@ } else { join_comma(list) }
}

/// A modality list as shown in the detail panel.
pub fn modality_text(list: &Vec<String>) -> (r: String)
    ensures
        r@ == spec_modality_text(string_views(list@)),
{
    if list.len() == 0 {
        return "text".to_string();
    }
    let ghost items = string_views(list@);
    let mut v: Vec<char> = Vec::new();
    push_str(&mut v, list[0].as_str());
    let mut i: usize = 1;
    assert(items.take(1).drop_last() =~= Seq::<Seq<char>>::empty());
    while i < list.len()
        invariant
            1 <= i <= list@.len(),
            items == string_views(list@),
            v@ == join_comma(items.take(i as int)),
        decreases list.len() - i,
    {
        assert(items.take(i as int + 1).drop_last() =~= items.take(i as int));
        v.push(',');
        v.push(' ');
        push_str(&mut v, list[i].as_str());
        i = i + 1;
    }
    assert(items.take(i as int) =~= items);
    string_from_chars(&v)
}

/// Body color of the detail panel: deprecated models are dimmed.
pub open spec fn spec_text_color(status: Option<Seq<char>>) -> TermColor {
    if status == Some("deprecated"@) { TermColor::DarkGray } else { TermColor::White }
}

/// Body color of the detail panel: deprecated models are dimmed.
pub fn text_color(status: Option<&str>) -> (r: TermColor)
    ensures
        r == spec_text_color(match status { Some(s) => Some(s@), None => None }),
{
    match status {
        Some(s) => if crate::text::str_eq(s, "deprecated") { TermColor::DarkGray } else { TermColor::White },
        None => TermColor::White,
    }
}

/// The family row: "Family: " and the family (an em dash when unknown), then
/// the status when it is not "active" (red when deprecated).
pub open spec fn spec_meta_row(family: Option<Seq<char>>, status: Option<Seq<char>>) -> Seq<TextSpanView> {
    let head = seq![
        TextSpanView { text: "Family: "@, color: Some(TermColor::Gray) },
        TextSpanView { text: match family { Some(f) => f, None => "\u{2014}"@ }, color: None },
    ];
    match status {
        Some(st) => if st != "active"@ {
            head + seq![
                TextSpanView { text: "     "@, color: None },
                TextSpanView { text: "Status: "@, color: Some(TermColor::Gray) },
                TextSpanView {
                    text: st,
                    color: Some(if st == "deprecated"@ { TermColor::Red } else { TermColor::DarkGray }),
                },
            ]
        } else {
            head
        },
        None => head,
    }
}

/// The family row of the detail panel.
pub fn meta_row(family: Option<&str>, status: Option<&str>) -> (r: Vec<TextSpan>)
    ensures
        span_views(r@) == spec_meta_row(
            match family { Some(f) => Some(f@), None => None },
            match status { Some(s) => Some(s@), None => None }),
{
    let mut r: Vec<TextSpan> = Vec::new();
    r.push(TextSpan { text: "Family: ".to_string(), color: Some(TermColor::Gray) });
    let fam = match family {
        Some(f) => f.to_string(),
        None => "\u{2014}".to_string(),
    };
    r.push(TextSpan { text: fam, color: None });
    match status {
        Some(st) => {
            if !crate::text::str_eq(st, "active") {
                let c = if crate::text::str_eq(st, "deprecated") { TermColor::Red } else { TermColor::DarkGray };
                r.push(TextSpan { text: "     ".to_string(), color: None });
                r.push(TextSpan { text: "Status: ".to_string(), color: Some(TermColor::Gray) });
                r.push(TextSpan { text: st.to_string(), color: Some(c) });
            }
        },
        None => {},
    }
    assert(span_views(r@) =~= spec_meta_row(
        match family { Some(f) => Some(f@), None => None },
        match status { Some(s) => Some(s@), None => None }));
    r
}

/// A limit as shown: "-" (unknown) becomes a dimmed em dash.
pub open spec fn spec_limit_cell(text: Seq<char>, body: TermColor) -> (Seq<char>, TermColor) {
    if text == "-"@ { ("\u{2014}"@, TermColor::DarkGray) } else { (text, body) }
}

/// A limit as shown: "-" (unknown) becomes a dimmed em dash.
pub fn limit_cell(text: &str, body: TermColor) -> (r: (String, TermColor))
    ensures
        (r.0@, r.1) == spec_limit_cell(text@, body),
{
    if crate::text::str_eq(text, "-") {
        ("\u{2014}".to_string(), TermColor::DarkGray)
    } else {
        (text.to_string(), body)
    }
}

/// The limits row: context, input and output limits on one line, the first
/// two padded to a third of `width` bytes each.
pub open spec fn spec_limits_line(
    width: nat,
    ctx: (Seq<char>, TermColor),
    inp: (Seq<char>, TermColor),
    out: (Seq<char>, TermColor),
) -> Seq<TextSpanView> {
    let third = width / 3;
    seq![
        TextSpanView { text: "Context: "@, color: Some(TermColor::Gray) },
        TextSpanView { text: ctx.0, color: Some(ctx.1) },
        TextSpanView { text: spaces(pair_pad(third, "Context: "@, ctx.0)), color: None },
        TextSpanView { text: "Input: "@, color: Some(TermColor::Gray) },
        TextSpanView { text: inp.0, color: Some(inp.1) },
        TextSpanView { text: spaces(pair_pad(third, "Input: "@, inp.0)), color: None },
        TextSpanView { text: "Output: "@, color: Some(TermColor::Gray) },
        TextSpanView { text: out.0, color: Some(out.1) },
    ]
}

/// The limits row of the detail panel from the formatted context, input and
/// output limits ("-" when unknown).
pub fn limits_line(width: u16, ctx: &str, inp: &str, out: &str, body: TermColor) -> (r: Vec<TextSpan>)
    ensures
        span_views(r@) == spec_limits_line(
            width as nat, spec_limit_cell(ctx@, body), spec_limit_cell(inp@, body), spec_limit_cell(out@, body)),
{
    let (cv, cc) = limit_cell(ctx, body);
    let (iv, ic) = limit_cell(inp, body);
    let (ov, oc) = limit_cell(out, body);
    let third = (width as usize) / 3;
    let pad_ctx = pad_for(third, "Context: ", cv.as_str());
    let pad_inp = pad_for(third, "Input: ", iv.as_str());
    let mut r: Vec<TextSpan> = Vec::new();
    r.push(TextSpan { text: "Context: ".to_string(), color: Some(TermColor::Gray) });
    r.push(TextSpan { text: cv, color: Some(cc) });
    r.push(TextSpan { text: space_string(pad_ctx), color: None });
    r.push(TextSpan { text: "Input: ".to_string(), color: Some(TermColor::Gray) });
    r.push(TextSpan { text: iv, color: Some(ic) });
    r.push(TextSpan { text: space_string(pad_inp), color: None });
    r.push(TextSpan { text: "Output: ".to_string(), color: Some(TermColor::Gray) });
    r.push(TextSpan { text: ov, color: Some(oc) });
    assert(span_views(r@) =~= spec_limits_line(
        width as nat, spec_limit_cell(ctx@, body), spec_limit_cell(inp@, body), spec_limit_cell(out@, body)));
    r
}

/// The provider card above the model detail.
#[derive(Debug, Clone, PartialEq, Eq)]
pub enum ProviderPanel {
    /// No model is selected.
    NoModel,
    /// The selected model's provider is not in the catalog.
    NotFound,
    Detail(ProviderCard),
}

/// What the provider card shows: name, category, docs and API URLs (em
/// dashes when missing), key variables, and key hints for the URLs present.
#[derive(Debug, Clone, PartialEq, Eq)]
pub struct ProviderCard {
    pub name: String,
    pub category: ProviderCategory,
    pub docs: String,
    pub api: String,
    pub env: String,
    pub hints: Vec<TextSpan>,
}

pub open spec fn or_dash(s: Option<String>) -> Seq<char> {
    match s {
        Some(t) => t@,
        None => seq!['\u{2014}'],
    }
}

/// Hints for the URLs present: "o docs", then "A api", two spaces apart.
pub open spec fn spec_hints(has_doc: bool, has_api: bool) -> Seq<TextSpanView> {
    let d: Seq<TextSpanView> = if has_doc {
        seq![TextSpanView { text: "o "@, color: Some(TermColor::Yellow) }, TextSpanView { text: "docs"@, color: None }]
    } else { Seq::empty() };
    let gap: Seq<TextSpanView> = if has_doc && has_api { seq![TextSpanView { text: "  "@, color: None }] } else { Seq::empty() };
    let a: Seq<TextSpanView> = if has_api {
        seq![TextSpanView { text: "A "@, color: Some(TermColor::Yellow) }, TextSpanView { text: "api"@, color: None }]
    } else { Seq::empty() };
    d + gap + a
}

/// The card for provider `p`.
pub open spec fn card_ok(c: ProviderCard, p: ProviderInfo) -> bool {
    &&& c.name@ == p.name@
    &&& c.category == p.category
    &&& c.docs@ == or_dash(p.doc)
    &&& c.api@ == or_dash(p.api)
    &&& c.env@ == spec_env_text(string_views(p.env@))
    &&& span_views(c.hints@) == spec_hints(p.doc is Some, p.api is Some)
}

/// The key variables: joined with ", ", or an em dash when there are none.
pub open spec fn spec_env_text(list: Seq<Seq<char>>) -> Seq<char> {
    if list.len() == 0 { seq!['\u{2014}'] } else { join_comma(list) }
}

/// The provider panel for the current model: its provider is the first
/// catalog entry with the model's provider id.
pub open spec fn spec_provider_panel_ok(r: ProviderPanel, app: ModelsApp, ps: Seq<ProviderInfo>) -> bool {
    match app.spec_current_model() {
        None => r == ProviderPanel::NoModel,
        Some(i) => match provider_with_id(ps, app.filtered_models@[i].provider_id@, 0) {
            None => r == ProviderPanel::NotFound,
            Some(k) => r matches ProviderPanel::Detail(c) && card_ok(c, ps[k]),
        },
    }
}

fn opt_or_dash(s: &Option<String>) -> (r: String)
    ensures
        r@ == or_dash(*s),
{
    match s {
        Some(t) => t.clone(),
        None => {
            let mut v: Vec<char> = Vec::new();
            v.push('\u{2014}');
            string_from_chars(&v)
        },
    }
}

fn env_text(list: &Vec<String>) -> (r: String)
    ensures
        r@ == spec_env_text(string_views(list@)),
{
    if list.len() == 0 {
        let mut v: Vec<char> = Vec::new();
        v.push('\u{2014}');
        return string_from_chars(&v);
    }
    modality_text(list)
}

fn hints(has_doc: bool, has_api: bool) -> (r: Vec<TextSpan>)
    ensures
        span_views(r@) == spec_hints(has_doc, has_api),
{
    let mut r: Vec<TextSpan> = Vec::new();
    if has_doc {
        r.push(TextSpan { text: "o ".to_string(), color: Some(TermColor::Yellow) });
        r.push(TextSpan { text: "docs".to_string(), color: None });
    }
    if has_doc && has_api {
        r.push(TextSpan { text: "  ".to_string(), color: None });
    }
    if has_api {
        r.push(TextSpan { text: "A ".to_string(), color: Some(TermColor::Yellow) });
        r.push(TextSpan { text: "api".to_string(), color: None });
    }
    assert(span_views(r@) =~= spec_hints(has_doc, has_api));
    r
}

/// The provider card of the current model.
pub fn provider_panel(app: &ModelsApp, providers: &Vec<ProviderInfo>) -> (r: ProviderPanel)
    ensures
        spec_provider_panel_ok(r, *app, providers@),
{
    match app.current_model() {
        None => ProviderPanel::NoModel,
        Some(entry) => match find_provider(providers, &entry.provider_id) {
            None => ProviderPanel::NotFound,
            Some(k) => {
                let p = &providers[k];
                ProviderPanel::Detail(ProviderCard {
                    name: p.name.clone(),
                    category: p.category,
                    docs: opt_or_dash(&p.doc),
                    api: opt_or_dash(&p.api),
                    env: env_text(&p.env),
                    hints: hints(p.doc.is_some(), p.api.is_some()),
                })
            },
        },
    }
}

/// One provider offering of a grouped row, as the Providers section lists it.
#[derive(Debug, Clone, PartialEq, Eq)]
pub struct OfferingRow {
    /// The provider's display name (its id when the catalog lacks it).
    pub name: String,
    /// Input and output price keys, and the context window.
    pub input: Option<i64>,
    pub output: Option<i64>,
    pub context: Option<u64>,
    /// The offering joined the group by local inference.
    pub inferred: bool,
}

/// Ghost form of [`OfferingRow`].
pub ghost struct OfferingView {
    pub name: Seq<char>,
    pub input: Option<i64>,
    pub output: Option<i64>,
    pub context: Option<u64>,
    pub inferred: bool,
}

pub open spec fn offering_view(r: OfferingRow) -> OfferingView {
    OfferingView { name: r.name@, input: r.input, output: r.output, context: r.context, inferred: r.inferred }
}

pub open spec fn offering_views(v: Seq<OfferingRow>) -> Seq<OfferingView> {
    v.map_values(|r: OfferingRow| offering_view(r))
}

/// Display name of provider `id`: the first catalog entry with that id, or
/// the id itself.
pub open spec fn provider_name(ps: Seq<ProviderInfo>, id: Seq<char>) -> Seq<char> {
    match provider_with_id(ps, id, 0) {
        Some(k) => ps[k].name@,
        None => id,
    }
}

/// The offering of group member `pos`.
pub open spec fn member_offering(es: Seq<ModelEntry>, ps: Seq<ProviderInfo>, g: ModelGroup, pos: int) -> OfferingView {
    let e = es[g.member_indices@[pos] as int];
    OfferingView {
        name: provider_name(ps, e.provider_id@),
        input: e.model.input_cost,
        output: e.model.output_cost,
        context: e.model.context,
        inferred: pos < g.member_provenance@.len() && g.member_provenance@[pos].spec_is_inferred(),
    }
}

/// Offerings of the first `n` members whose entry is in the list, in member
/// order.
pub open spec fn member_offerings(es: Seq<ModelEntry>, ps: Seq<ProviderInfo>, g: ModelGroup, n: nat) -> Seq<OfferingView>
    decreases n,
{
    if n == 0 || n > g.member_indices@.len() {
        Seq::empty()
    } else {
        let prev = member_offerings(es, ps, g, (n - 1) as nat);
        if g.member_indices@[n - 1] < es.len() { prev.push(member_offering(es, ps, g, n - 1)) } else { prev }
    }
}

/// Sort key of an offering: priced offerings by input price, the others by
/// provider name.
pub open spec fn offering_key(o: OfferingView) -> SortValView {
    match o.input {
        Some(x) => SortValView::Num(Some(x)),
        None => SortValView::Text(Some(o.name)),
    }
}

pub open spec fn offering_keys(rows: Seq<OfferingView>) -> Seq<SortValView> {
    Seq::new(rows.len(), |i: int| offering_key(rows[i]))
}

/// Positions (ascending) among the first `n` rows that are priced (or not).
pub open spec fn positions_where(rows: Seq<OfferingView>, priced: bool, n: nat) -> Seq<usize>
    decreases n,
{
    if n == 0 || n > rows.len() {
        Seq::empty()
    } else {
        let prev = positions_where(rows, priced, (n - 1) as nat);
        if (rows[n - 1].input is Some) == priced { prev.push((n - 1) as usize) } else { prev }
    }
}

/// Cheapest input first (ties keep member order), then the unpriced
/// offerings by provider name.
pub open spec fn offering_order(rows: Seq<OfferingView>) -> Seq<usize> {
    insertion_sorted(offering_keys(rows), false, positions_where(rows, true, rows.len()))
        + insertion_sorted(offering_keys(rows), false, positions_where(rows, false, rows.len()))
}

/// At most this many offerings are listed.
pub const MAX_OFFERING_ROWS: usize = 10;

/// The Providers section of a grouped row: the first ten offerings in
/// `offering_order`, and how many more there are.
pub open spec fn spec_group_offerings(es: Seq<ModelEntry>, ps: Seq<ProviderInfo>, g: ModelGroup) -> (Seq<OfferingView>, nat) {
    let rows = member_offerings(es, ps, g, g.member_indices@.len());
    let order = offering_order(rows);
    let shown: int = if order.len() < MAX_OFFERING_ROWS { order.len() as int } else { MAX_OFFERING_ROWS as int };
    (Seq::new(shown as nat, |k: int| rows[order[k] as int]),
     if rows.len() > MAX_OFFERING_ROWS { (rows.len() - MAX_OFFERING_ROWS) as nat } else { 0 })
}

proof fn lemma_positions_below(rows: Seq<OfferingView>, priced: bool, n: nat)
    requires
        n <= rows.len(),
        rows.len() <= usize::MAX,
    ensures
        all_below(positions_where(rows, priced, n), rows.len()),
        positions_where(rows, priced, n).len() <= n,
    decreases n,
{
    if n > 0 {
        lemma_positions_below(rows, priced, (n - 1) as nat);
    }
}

proof fn lemma_positions_kind(rows: Seq<OfferingView>, priced: bool, n: nat, y: usize)
    requires
        n <= rows.len(),
        rows.len() <= usize::MAX,
        positions_where(rows, priced, n).contains(y),
    ensures
        y < n,
        (rows[y as int].input is Some) == priced,
    decreases n,
{
    if n > 0 {
        let prev = positions_where(rows, priced, (n - 1) as nat);
        if (rows[n - 1].input is Some) == priced && y == (n - 1) as usize {
        } else {
            let i = choose|i: int| 0 <= i < positions_where(rows, priced, n).len() && positions_where(rows, priced, n)[i] == y;
            if (rows[n - 1].input is Some) == priced {
                assert(i < prev.len());
                assert(prev[i] == y);
            }
            assert(prev.contains(y));
            lemma_positions_kind(rows, priced, (n - 1) as nat, y);
        }
    }
}

proof fn lemma_positions_split(rows: Seq<OfferingView>, n: nat)
    requires
        n <= rows.len(),
    ensures
        positions_where(rows, true, n).len() + positions_where(rows, false, n).len() == n,
    decreases n,
{
    if n > 0 {
        lemma_positions_split(rows, (n - 1) as nat);
    }
}

fn copy_row(r: &OfferingRow) -> (c: OfferingRow)
    ensures
        offering_view(c) == offering_view(*r),
{
    OfferingRow { name: r.name.clone(), input: r.input, output: r.output, context: r.context, inferred: r.inferred }
}

/// The Providers section of grouped row `g`: its offerings in list order
/// (cheapest input first, unpriced ones by provider name), at most ten, and
/// the number left out.
pub fn group_offerings(app: &ModelsApp, providers: &Vec<ProviderInfo>, g: &ModelGroup) -> (r: (Vec<OfferingRow>, usize))
    ensures
        (offering_views(r.0@), r.1 as nat) == spec_group_offerings(app.filtered_models@, providers@, *g),
        r.0@.len() <= MAX_OFFERING_ROWS,
        forall|j: int, k: int| 0 <= j < k < r.0@.len() && r.0@[k].input is Some ==> r.0@[j].input is Some,
        forall|j: int, k: int| 0 <= j < k < r.0@.len() && r.0@[j].input is Some && r.0@[k].input is Some
            ==> r.0@[j].input->0 <= r.0@[k].input->0,
        forall|j: int, k: int| 0 <= j < k < r.0@.len() && r.0@[j].input is None && r.0@[k].input is None
            ==> crate::sorting::lex_le(r.0@[j].name@, r.0@[k].name@),
{
    let es = &app.filtered_models;
    let mut rows: Vec<OfferingRow> = Vec::new();
    let mut pos: usize = 0;
    while pos < g.member_indices.len()
        invariant
            pos <= g.member_indices@.len(),
            offering_views(rows@) == member_offerings(es@, providers@, *g, pos as nat),
            rows@.len() <= pos,
        decreases g.member_indices.len() - pos,
    {
        let i = g.member_indices[pos];
        if i < es.len() {
            let e = &es[i];
            let name = match find_provider(providers, &e.provider_id) {
                Some(k) => providers[k].name.clone(),
                None => e.provider_id.clone(),
            };
            let inferred = pos < g.member_provenance.len() && g.member_provenance[pos].is_inferred();
            let row = OfferingRow {
                name,
                input: e.model.input_cost,
                output: e.model.output_cost,
                context: e.model.context,
                inferred,
            };
            assert(offering_view(row) == member_offering(es@, providers@, *g, pos as int));
            let ghost before = offering_views(rows@);
            rows.push(row);
            assert(offering_views(rows@) =~= before.push(offering_view(row)));
        }
        pos = pos + 1;
    }
    let ghost rv = offering_views(rows@);
    let mut keys: Vec<SortVal> = Vec::new();
    let mut priced: Vec<usize> = Vec::new();
    let mut unpriced: Vec<usize> = Vec::new();
    let mut i: usize = 0;
    while i < rows.len()
        invariant
            i <= rows@.len(),
            rv == offering_views(rows@),
            keys@.len() == i,
            forall|k: int| 0 <= k < i ==> val_view(#[trigger] keys@[k]) == offering_key(rv[k]),
            priced@ == positions_where(rv, true, i as nat),
            unpriced@ == positions_where(rv, false, i as nat),
        decreases rows.len() - i,
    {
        match rows[i].input {
            Some(x) => {
                keys.push(SortVal::Num(Some(x)));
                priced.push(i);
            },
            None => {
                keys.push(SortVal::Text(Some(chars_of(rows[i].name.as_str()))));
                unpriced.push(i);
            },
        }
        i = i + 1;
    }
    assert(key_views(keys@) =~= offering_keys(rv));
    proof {
        lemma_positions_below(rv, true, rv.len());
        lemma_positions_below(rv, false, rv.len());
        lemma_positions_split(rv, rv.len());
    }
    let a = sort_by_keys(&priced, &keys, false);
    let b = sort_by_keys(&unpriced, &keys, false);
    let ghost order = offering_order(rv);
    assert(order =~= a@ + b@);
    proof {
        crate::sorting::lemma_insertion_sorted_elements(offering_keys(rv), false, positions_where(rv, true, rv.len()));
        crate::sorting::lemma_insertion_sorted_elements(offering_keys(rv), false, positions_where(rv, false, rv.len()));
    }
    let total = a.len() + b.len();
    let shown: usize = if total < MAX_OFFERING_ROWS { total } else { MAX_OFFERING_ROWS };
    let mut out: Vec<OfferingRow> = Vec::new();
    let mut k: usize = 0;
    while k < shown
        invariant
            k <= shown,
            shown <= a@.len() + b@.len(),
            order == a@ + b@,
            rv == offering_views(rows@),
            forall|j: int| 0 <= j < order.len() ==> 0 <= #[trigger] order[j] < rows@.len(),
            out@.len() == k,
            forall|j: int| 0 <= j < k ==> offering_view(#[trigger] out@[j]) == rv[order[j] as int],
        decreases shown - k,
    {
        let idx = if k < a.len() { a[k] } else { b[k - a.len()] };
        assert(idx == order[k as int]);
        out.push(copy_row(&rows[idx]));
        k = k + 1;
    }
    let overflow: usize = if rows.len() > MAX_OFFERING_ROWS { rows.len() - MAX_OFFERING_ROWS } else { 0 };
    assert(offering_views(out@) =~= spec_group_offerings(es@, providers@, *g).0);
    proof {
        let kv = offering_keys(rv);
        let pw = positions_where(rv, true, rv.len());
        let uw = positions_where(rv, false, rv.len());
        assert forall|j: int| 0 <= j < a@.len() implies (#[trigger] rv[a@[j] as int]).input is Some by {
            assert(a@.contains(a@[j]));
            lemma_positions_kind(rv, true, rv.len(), a@[j]);
        }
        assert forall|j: int| 0 <= j < b@.len() implies (#[trigger] rv[b@[j] as int]).input is None by {
            assert(b@.contains(b@[j]));
            lemma_positions_kind(rv, false, rv.len(), b@[j]);
        }
        assert forall|j: int| 0 <= j < out@.len() implies offering_view(#[trigger] out@[j]) == rv[order[j] as int] by {}
        assert forall|j: int, k: int| 0 <= j < k < out@.len() && out@[k].input is Some implies out@[j].input is Some by {
            assert(offering_view(out@[k]) == rv[order[k] as int]);
            assert(offering_view(out@[j]) == rv[order[j] as int]);
            if k >= a@.len() {
                assert(order[k] == b@[k - a@.len()]);
                assert(rv[b@[k - a@.len()] as int].input is None);
            }
            assert(order[j] == a@[j]);
        }
        assert forall|j: int, k: int| 0 <= j < k < out@.len() && out@[j].input is Some && out@[k].input is Some
            implies out@[j].input->0 <= out@[k].input->0 by {
            assert(offering_view(out@[k]) == rv[order[k] as int]);
            assert(offering_view(out@[j]) == rv[order[j] as int]);
            if k >= a@.len() {
                assert(rv[b@[k - a@.len()] as int].input is None);
            }
            assert(order[j] == a@[j] && order[k] == a@[k]);
            assert(crate::sorting::ordered(kv, false, a@[j], a@[k]));
        }
        assert forall|j: int, k: int| 0 <= j < k < out@.len() && out@[j].input is None && out@[k].input is None
            implies crate::sorting::lex_le(out@[j].name@, out@[k].name@) by {
            assert(offering_view(out@[k]) == rv[order[k] as int]);
            assert(offering_view(out@[j]) == rv[order[j] as int]);
            if j < a@.len() {
                assert(rv[a@[j] as int].input is Some);
            }
            let bj = j - a@.len();
            let bk = k - a@.len();
            assert(order[j] == b@[bj] && order[k] == b@[bk]);
            assert(crate::sorting::ordered(kv, false, b@[bj], b@[bk]));
        }
    }
    (out, overflow)
}

/// Rows a line of `w` cells takes in a panel `inner_w` wide: one when it
/// fits, else the wrapped row count plus one spare row for word wrapping.
pub open spec fn wrapped_rows(w: nat, inner_w: nat) -> nat {
    if w <= inner_w { 1 } else { ((w + inner_w - 1) / (inner_w as int) + 1) as nat }
}

pub open spec fn rows_upto(widths: Seq<usize>, inner_w: nat, n: nat) -> nat
    decreases n,
{
    if n == 0 || n > widths.len() { 0 } else { rows_upto(widths, inner_w, (n - 1) as nat) + wrapped_rows(widths[n - 1] as nat, inner_w) }
}

/// Height of the provider card for lines `widths` cells wide in a panel
/// `inner_w` wide: the rows the lines take (one each when the panel has no
/// width), plus the border.
pub open spec fn spec_card_height(widths: Seq<usize>, inner_w: nat) -> nat {
    (if inner_w == 0 { widths.len() } else { rows_upto(widths, inner_w, widths.len()) }) + 2
}

proof fn lemma_rows_mono(widths: Seq<usize>, inner_w: nat, a: nat, b: nat)
    requires
        a <= b <= widths.len(),
    ensures
        rows_upto(widths, inner_w, a) <= rows_upto(widths, inner_w, b),
    decreases b,
{
    if a < b {
        lemma_rows_mono(widths, inner_w, a, (b - 1) as nat);
    }
}

/// Height of the provider card above the model detail.
pub fn card_height(widths: &Vec<usize>, inner_w: usize) -> (r: u16)
    requires
        spec_card_height(widths@, inner_w as nat) <= u16::MAX,
    ensures
        r as nat == spec_card_height(widths@, inner_w as nat),
{
    if inner_w == 0 {
        return (widths.len() as u16) + 2;
    }
    let mut total: u16 = 0;
    let mut i: usize = 0;
    while i < widths.len()
        invariant
            i <= widths@.len(),
            inner_w > 0,
            total as nat == rows_upto(widths@, inner_w as nat, i as nat),
            rows_upto(widths@, inner_w as nat, widths@.len()) + 2 <= u16::MAX,
        decreases widths.len() - i,
    {
        proof {
            lemma_rows_mono(widths@, inner_w as nat, (i + 1) as nat, widths@.len());
        }
        let w = widths[i];
        let rows: u16 = if w <= inner_w {
            1
        } else {
            let q0 = w / inner_w;
            let r0 = w % inner_w;
            assert((w + inner_w - 1) / (inner_w as int) == q0 + if r0 == 0 { 0int } else { 1int }) by (nonlinear_arith)
                requires
                    inner_w > 0,
                    q0 == w / inner_w,
                    r0 == w % inner_w,
            {
            }
            assert(rows_upto(widths@, inner_w as nat, (i + 1) as nat)
                == rows_upto(widths@, inner_w as nat, i as nat) + wrapped_rows(w as nat, inner_w as nat));
            let q = q0 + if r0 == 0 { 0 } else { 1 };
            (q as u16) + 1
        };
        total = total + rows;
        i = i + 1;
    }
    total + 2
}

/// A capability value: "Yes" in the capability's color, else a dimmed "No".
pub open spec fn spec_cap_val(active: bool, color: TermColor) -> (Seq<char>, TermColor) {
    if active { ("Yes"@, color) } else { ("No"@, TermColor::DarkGray) }
}

/// A capability the catalog may not report: "Yes", "No", or a dimmed em
/// dash when unknown.
pub open spec fn spec_cap_val_opt(v: Option<bool>, color: TermColor) -> (Seq<char>, TermColor) {
    match v {
        Some(true) => ("Yes"@, color),
        Some(false) => ("No"@, TermColor::DarkGray),
        None => (seq!['\u{2014}'], TermColor::DarkGray),
    }
}

/// The capabilities a model reports, as the detail panel reads them.
#[derive(Debug, Clone, Copy, PartialEq, Eq, Structural)]
pub struct Capabilities {
    pub reasoning: bool,
    pub tool_call: bool,
    pub attachment: bool,
    pub open_weights: bool,
    pub temperature: bool,
    pub structured_output: Option<bool>,
}

/// The three capability rows of the detail panel: Reasoning | Tools,
/// Source | Files, Temp | Structured.
pub open spec fn spec_capability_rows(c: Capabilities, col_w: nat) -> Seq<Seq<TextSpanView>> {
    let r = spec_cap_val(c.reasoning, TermColor::Cyan);
    let t = spec_cap_val(c.tool_call, TermColor::Yellow);
    let f = spec_cap_val(c.attachment, TermColor::Magenta);
    let o = if c.open_weights { ("Open"@, TermColor::Green) } else { ("Closed"@, TermColor::Red) };
    let tmp = spec_cap_val(c.temperature, TermColor::White);
    let so = spec_cap_val_opt(c.structured_output, TermColor::Blue);
    seq![
        spec_two_pair_line("Reasoning: "@, r.0, r.1, "Tools: "@, t.0, t.1, col_w),
        spec_two_pair_line("Source: "@, o.0, o.1, "Files: "@, f.0, f.1, col_w),
        spec_two_pair_line("Temp: "@, tmp.0, tmp.1, "Structured: "@, so.0, so.1, col_w),
    ]
}

fn cap_val(active: bool, color: TermColor) -> (r: (&'static str, TermColor))
    ensures
        (r.0@, r.1) == spec_cap_val(active, color),
{
    if active { ("Yes", color) } else { ("No", TermColor::DarkGray) }
}

fn cap_val_opt(v: Option<bool>, color: TermColor) -> (r: (&'static str, TermColor))
    ensures
        (r.0@, r.1) == spec_cap_val_opt(v, color),
{
    match v {
        Some(true) => ("Yes", color),
        Some(false) => ("No", TermColor::DarkGray),
        None => {
            let d = "\u{2014}";
            proof {
                reveal_strlit("\u{2014}");
            }
            (d, TermColor::DarkGray)
        },
    }
}

/// The capability rows of the detail panel, each pair padded to `col_w`.
pub fn capability_rows(c: Capabilities, col_w: usize) -> (r: Vec<Vec<TextSpan>>)
    ensures
        r@.len() == 3,
        forall|i: int| 0 <= i < 3 ==> span_views(#[trigger] r@[i]@) == spec_capability_rows(c, col_w as nat)[i],
{
    let (rv, rc) = cap_val(c.reasoning, TermColor::Cyan);
    let (tv, tc) = cap_val(c.tool_call, TermColor::Yellow);
    let (fv, fc) = cap_val(c.attachment, TermColor::Magenta);
    let (ov, oc): (&str, TermColor) = if c.open_weights { ("Open", TermColor::Green) } else { ("Closed", TermColor::Red) };
    let (mv, mc) = cap_val(c.temperature, TermColor::White);
    let (sv, sc) = cap_val_opt(c.structured_output, TermColor::Blue);
    let l1 = two_pair_line(&LabelValue { label: "Reasoning: ", value: rv, color: rc }, &LabelValue { label: "Tools: ", value: tv, color: tc }, col_w);
    let l2 = two_pair_line(&LabelValue { label: "Source: ", value: ov, color: oc }, &LabelValue { label: "Files: ", value: fv, color: fc }, col_w);
    let l3 = two_pair_line(&LabelValue { label: "Temp: ", value: mv, color: mc }, &LabelValue { label: "Structured: ", value: sv, color: sc }, col_w);
    let mut r: Vec<Vec<TextSpan>> = Vec::new();
    r.push(l1);
    r.push(l2);
    r.push(l3);
    r
}

/// A date cell: the date, or an em dash; the em dash is dimmed.
pub open spec fn spec_date_cell(d: Option<Seq<char>>, body: TermColor) -> (Seq<char>, TermColor) {
    let text = match d { Some(t) => t, None => seq!['\u{2014}'] };
    (text, if text == seq!['\u{2014}'] { TermColor::DarkGray } else { body })
}

/// The date rows of the detail panel: Released | Knowledge, then Updated
/// when the catalog gives it (dimmed for deprecated models).
pub open spec fn spec_date_rows(
    released: Option<Seq<char>>,
    knowledge: Option<Seq<char>>,
    updated: Option<Seq<char>>,
    deprecated: bool,
    body: TermColor,
    col_w: nat,
) -> Seq<Seq<TextSpanView>> {
    let r = spec_date_cell(released, body);
    let k = spec_date_cell(knowledge, body);
    let first = seq![spec_two_pair_line("Released: "@, r.0, r.1, "Knowledge: "@, k.0, k.1, col_w)];
    match updated {
        Some(u) => first.push(spec_two_pair_line("Updated: "@, u,
            if deprecated { TermColor::DarkGray } else { body }, ""@, ""@, TermColor::DarkGray, col_w)),
        None => first,
    }
}

fn date_cell(d: Option<&str>, body: TermColor) -> (r: (String, TermColor))
    ensures
        (r.0@, r.1) == spec_date_cell(match d { Some(t) => Some(t@), None => None }, body),
{
    let mut dash: Vec<char> = Vec::new();
    dash.push('\u{2014}');
    let text: Vec<char> = match d {
        Some(t) => crate::text::chars_of(t),
        None => dash.clone(),
    };
    let is_dash = crate::text::seq_eq(&text, &dash);
    proof {
        assert(dash@ =~= seq!['\u{2014}']);
    }
    (string_from_chars(&text), if is_dash { TermColor::DarkGray } else { body })
}

/// The date rows of the detail panel.
pub fn date_rows(
    released: Option<&str>,
    knowledge: Option<&str>,
    updated: Option<&str>,
    deprecated: bool,
    body: TermColor,
    col_w: usize,
) -> (r: Vec<Vec<TextSpan>>)
    ensures
        r@.len() == (if updated is Some { 2int } else { 1int }),
        forall|i: int| 0 <= i < r@.len() ==> span_views(#[trigger] r@[i]@) == spec_date_rows(
            match released { Some(t) => Some(t@), None => None },
            match knowledge { Some(t) => Some(t@), None => None },
            match updated { Some(t) => Some(t@), None => None },
            deprecated, body, col_w as nat)[i],
{
    let (rv, rc) = date_cell(released, body);
    let (kv, kc) = date_cell(knowledge, body);
    let mut r: Vec<Vec<TextSpan>> = Vec::new();
    r.push(two_pair_line(
        &LabelValue { label: "Released: ", value: rv.as_str(), color: rc },
        &LabelValue { label: "Knowledge: ", value: kv.as_str(), color: kc },
        col_w,
    ));
    match updated {
        Some(u) => {
            proof {
                reveal_strlit("");
            }
            r.push(two_pair_line(
                &LabelValue { label: "Updated: ", value: u, color: if deprecated { TermColor::DarkGray } else { body } },
                &LabelValue { label: "", value: "", color: TermColor::DarkGray },
                col_w,
            ));
        },
        None => {},
    }
    r
}

} // verus!
