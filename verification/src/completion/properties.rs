//! What holds of every list of completion entries that
//! [`build_completion_items`](crate::completion::builder::build_completion_items)
//! returns, stated over the same specification as its contract.
use vstd::prelude::*;

use crate::completion::builder::{
    candidate_entries, class_keyword_entry, constant_entries, constant_entry, constants_offered,
    is_colon_access, is_magic_method_spec, is_same_class, method_entries, method_entry,
    method_included, method_label_spec, param_labels, property_entries, property_entry,
    property_included, visible,
};
use crate::completion::item::{CompletionKind, EntryView};
use crate::completion::sort::{is_stable_sort, lemma_stable_sort_keeps_all, sort_key, stably_sorted_by};
use crate::text::{contains_seq, eq_ignore_ascii_case, join, lex_le};
use crate::types::{AccessKind, ClassInfo, ConstantInfo, MethodInfo, ParameterInfo, PropertyInfo, Visibility};

verus! {

/// Each method entry comes from an offered method of the list.
proof fn lemma_method_entries_origin(
    ms: Seq<MethodInfo>,
    cn: Seq<char>,
    access: AccessKind,
    same: bool,
    isa: bool,
    i: int,
)
    requires
        0 <= i < method_entries(ms, cn, access, same, isa).len(),
    ensures
        exists|k: int|
            0 <= k < ms.len() && method_included(#[trigger] ms[k], access, same, isa)
                && method_entries(ms, cn, access, same, isa)[i] == method_entry(ms[k], cn),
    decreases ms.len(),
{
    let rest = method_entries(ms.drop_last(), cn, access, same, isa);
    if i < rest.len() {
        lemma_method_entries_origin(ms.drop_last(), cn, access, same, isa, i);
        let k = choose|k: int|
            0 <= k < ms.drop_last().len() && method_included(#[trigger] ms.drop_last()[k], access, same, isa)
                && rest[i] == method_entry(ms.drop_last()[k], cn);
        assert(ms[k] == ms.drop_last()[k]);
    } else {
        assert(ms[ms.len() - 1] == ms.last());
    }
}

/// Each property entry comes from an offered property of the list.
proof fn lemma_property_entries_origin(
    ps: Seq<PropertyInfo>,
    cn: Seq<char>,
    access: AccessKind,
    same: bool,
    isa: bool,
    i: int,
)
    requires
        0 <= i < property_entries(ps, cn, access, same, isa).len(),
    ensures
        exists|k: int|
            0 <= k < ps.len() && property_included(#[trigger] ps[k], access, same, isa)
                && property_entries(ps, cn, access, same, isa)[i] == property_entry(ps[k], cn, access),
    decreases ps.len(),
{
    let rest = property_entries(ps.drop_last(), cn, access, same, isa);
    if i < rest.len() {
        lemma_property_entries_origin(ps.drop_last(), cn, access, same, isa, i);
        let k = choose|k: int|
            0 <= k < ps.drop_last().len() && property_included(#[trigger] ps.drop_last()[k], access, same, isa)
                && rest[i] == property_entry(ps.drop_last()[k], cn, access);
        assert(ps[k] == ps.drop_last()[k]);
    } else {
        assert(ps[ps.len() - 1] == ps.last());
    }
}

/// Each constant entry comes from a visible constant of the list.
proof fn lemma_constant_entries_origin(cs: Seq<ConstantInfo>, cn: Seq<char>, same: bool, isa: bool, i: int)
    requires
        0 <= i < constant_entries(cs, cn, same, isa).len(),
    ensures
        exists|k: int|
            0 <= k < cs.len() && visible((#[trigger] cs[k]).visibility, same, isa)
                && constant_entries(cs, cn, same, isa)[i] == constant_entry(cs[k], cn),
    decreases cs.len(),
{
    let rest = constant_entries(cs.drop_last(), cn, same, isa);
    if i < rest.len() {
        lemma_constant_entries_origin(cs.drop_last(), cn, same, isa, i);
        let k = choose|k: int|
            0 <= k < cs.drop_last().len() && visible((#[trigger] cs.drop_last()[k]).visibility, same, isa)
                && rest[i] == constant_entry(cs.drop_last()[k], cn);
        assert(cs[k] == cs.drop_last()[k]);
    } else {
        assert(cs[cs.len() - 1] == cs.last());
    }
}

/// Where an entry of the output came from.
pub open spec fn entry_origin_ok(
    e: EntryView,
    target: ClassInfo,
    access: AccessKind,
    same: bool,
    isa: bool,
) -> bool {
    match e.kind {
        CompletionKind::Method => exists|k: int|
            0 <= k < target.methods@.len() && method_included(#[trigger] target.methods@[k], access, same, isa)
                && e == method_entry(target.methods@[k], target.name@),
        CompletionKind::Property => exists|k: int|
            0 <= k < target.properties@.len() && property_included(
                #[trigger] target.properties@[k],
                access,
                same,
                isa,
            ) && e == property_entry(target.properties@[k], target.name@, access),
        CompletionKind::Constant => constants_offered(access) && exists|k: int|
            0 <= k < target.constants@.len() && visible((#[trigger] target.constants@[k]).visibility, same, isa)
                && e == constant_entry(target.constants@[k], target.name@),
        CompletionKind::Keyword => is_colon_access(access) && e == class_keyword_entry(),
    }
}

/// Every candidate entry comes from an offered member (or is the `class`
/// keyword under `::` access).
proof fn lemma_candidate_origin(target: ClassInfo, access: AccessKind, same: bool, isa: bool, j: int)
    requires
        0 <= j < candidate_entries(target, access, same, isa).len(),
    ensures
        entry_origin_ok(candidate_entries(target, access, same, isa)[j], target, access, same, isa),
{
    let ms = method_entries(target.methods@, target.name@, access, same, isa);
    let ps = property_entries(target.properties@, target.name@, access, same, isa);
    let cs = if constants_offered(access) {
        constant_entries(target.constants@, target.name@, same, isa)
    } else {
        Seq::empty()
    };
    let cand = candidate_entries(target, access, same, isa);
    if j < ms.len() {
        lemma_method_entries_origin(target.methods@, target.name@, access, same, isa, j);
    } else if j < ms.len() + ps.len() {
        lemma_property_entries_origin(target.properties@, target.name@, access, same, isa, j - ms.len());
    } else if j < ms.len() + ps.len() + cs.len() {
        lemma_constant_entries_origin(target.constants@, target.name@, same, isa, j - ms.len() - ps.len());
    }
}

/// Every entry that completion offers comes from a member of the target
/// class that passes the access and visibility filters (or is the `class`
/// keyword, offered under `::` access only).
pub proof fn law_entries_come_from_offered_members(
    target: ClassInfo,
    access: AccessKind,
    current: Option<&str>,
    isa: bool,
    out: Seq<EntryView>,
    i: int,
)
    requires
        is_stable_sort(out, candidate_entries(target, access, is_same_class(target, current), isa)),
        0 <= i < out.len(),
    ensures
        entry_origin_ok(out[i], target, access, is_same_class(target, current), isa),
{
    let same = is_same_class(target, current);
    let cand = candidate_entries(target, access, same, isa);
    let p = choose|p: Seq<int>| stably_sorted_by(out, cand, p);
    assert(out[i] == cand[p[i]]);
    lemma_candidate_origin(target, access, same, isa, p[i]);
}

/// A private member is offered only inside its own class, and a protected
/// member only inside the class or a class related to it by inheritance.
pub proof fn law_visibility_respected(
    target: ClassInfo,
    access: AccessKind,
    current: Option<&str>,
    isa: bool,
    out: Seq<EntryView>,
    i: int,
)
    requires
        is_stable_sort(out, candidate_entries(target, access, is_same_class(target, current), isa)),
        0 <= i < out.len(),
    ensures
        out[i].kind == CompletionKind::Method ==> exists|k: int|
            0 <= k < target.methods@.len() && out[i] == method_entry(#[trigger] target.methods@[k], target.name@)
                && visible(target.methods@[k].visibility, is_same_class(target, current), isa),
        out[i].kind == CompletionKind::Property ==> exists|k: int|
            0 <= k < target.properties@.len() && out[i] == property_entry(
                #[trigger] target.properties@[k],
                target.name@,
                access,
            ) && visible(target.properties@[k].visibility, is_same_class(target, current), isa),
        out[i].kind == CompletionKind::Constant ==> exists|k: int|
            0 <= k < target.constants@.len() && out[i] == constant_entry(#[trigger] target.constants@[k], target.name@)
                && visible(target.constants@[k].visibility, is_same_class(target, current), isa),
{
    law_entries_come_from_offered_members(target, access, current, isa, out, i);
}

/// From top-level code (no enclosing class, unrelated to the target) only
/// public members are offered.
pub proof fn law_top_level_sees_only_public(
    target: ClassInfo,
    access: AccessKind,
    out: Seq<EntryView>,
    i: int,
)
    requires
        is_stable_sort(out, candidate_entries(target, access, is_same_class(target, None), false)),
        0 <= i < out.len(),
    ensures
        out[i].kind == CompletionKind::Method ==> exists|k: int|
            0 <= k < target.methods@.len() && out[i] == method_entry(#[trigger] target.methods@[k], target.name@)
                && target.methods@[k].visibility == Visibility::Public,
        out[i].kind == CompletionKind::Property ==> exists|k: int|
            0 <= k < target.properties@.len() && out[i] == property_entry(
                #[trigger] target.properties@[k],
                target.name@,
                access,
            ) && target.properties@[k].visibility == Visibility::Public,
        out[i].kind == CompletionKind::Constant ==> exists|k: int|
            0 <= k < target.constants@.len() && out[i] == constant_entry(#[trigger] target.constants@[k], target.name@)
                && target.constants@[k].visibility == Visibility::Public,
{
    law_entries_come_from_offered_members(target, access, None, false, out, i);
}

/// `->` access offers only instance methods and instance properties: no
/// static member, no constant, no `class` keyword.
pub proof fn law_arrow_offers_instance_members(
    target: ClassInfo,
    current: Option<&str>,
    isa: bool,
    out: Seq<EntryView>,
    i: int,
)
    requires
        is_stable_sort(out, candidate_entries(target, AccessKind::Arrow, is_same_class(target, current), isa)),
        0 <= i < out.len(),
    ensures
        out[i].kind == CompletionKind::Method || out[i].kind == CompletionKind::Property,
        out[i].kind == CompletionKind::Method ==> exists|k: int|
            0 <= k < target.methods@.len() && out[i] == method_entry(#[trigger] target.methods@[k], target.name@)
                && !target.methods@[k].is_static,
        out[i].kind == CompletionKind::Property ==> exists|k: int|
            0 <= k < target.properties@.len() && out[i] == property_entry(
                #[trigger] target.properties@[k],
                target.name@,
                AccessKind::Arrow,
            ) && !target.properties@[k].is_static,
{
    law_entries_come_from_offered_members(target, AccessKind::Arrow, current, isa, out, i);
}

/// External `ClassName::` access offers static methods (and `__construct`),
/// static properties, constants and the `class` keyword.
pub proof fn law_double_colon_offers_static_members(
    target: ClassInfo,
    current: Option<&str>,
    isa: bool,
    out: Seq<EntryView>,
    i: int,
)
    requires
        is_stable_sort(out, candidate_entries(target, AccessKind::DoubleColon, is_same_class(target, current), isa)),
        0 <= i < out.len(),
    ensures
        out[i].kind == CompletionKind::Method ==> exists|k: int|
            0 <= k < target.methods@.len() && out[i] == method_entry(#[trigger] target.methods@[k], target.name@)
                && (target.methods@[k].is_static || eq_ignore_ascii_case(target.methods@[k].name@, "__construct"@)),
        out[i].kind == CompletionKind::Property ==> exists|k: int|
            0 <= k < target.properties@.len() && out[i] == property_entry(
                #[trigger] target.properties@[k],
                target.name@,
                AccessKind::DoubleColon,
            ) && target.properties@[k].is_static,
{
    law_entries_come_from_offered_members(target, AccessKind::DoubleColon, current, isa, out, i);
}

/// A magic method is offered only when it is `__construct`, reached
/// through `::` from the class itself or a subclass.
pub proof fn law_magic_methods_suppressed(
    target: ClassInfo,
    access: AccessKind,
    current: Option<&str>,
    isa: bool,
    out: Seq<EntryView>,
    i: int,
)
    requires
        is_stable_sort(out, candidate_entries(target, access, is_same_class(target, current), isa)),
        0 <= i < out.len(),
        out[i].kind == CompletionKind::Method,
    ensures
        exists|k: int|
            0 <= k < target.methods@.len() && out[i] == method_entry(#[trigger] target.methods@[k], target.name@)
                && (is_magic_method_spec(target.methods@[k].name@) ==> eq_ignore_ascii_case(
                target.methods@[k].name@,
                "__construct"@,
            ) && isa && is_colon_access(access)),
{
    law_entries_come_from_offered_members(target, access, current, isa, out, i);
}

/// The entries are in case-insensitive alphabetical order of their filter
/// text.
pub proof fn law_entries_sorted(
    target: ClassInfo,
    access: AccessKind,
    current: Option<&str>,
    isa: bool,
    out: Seq<EntryView>,
    i: int,
    j: int,
)
    requires
        is_stable_sort(out, candidate_entries(target, access, is_same_class(target, current), isa)),
        0 <= i < j < out.len(),
    ensures
        lex_le(sort_key(out[i]), sort_key(out[j])),
{
    let cand = candidate_entries(target, access, is_same_class(target, current), isa);
    let p = choose|p: Seq<int>| stably_sorted_by(out, cand, p);
}

/// An offered method's entry is among the method entries.
proof fn lemma_method_entries_complete(
    ms: Seq<MethodInfo>,
    cn: Seq<char>,
    access: AccessKind,
    same: bool,
    isa: bool,
    k: int,
)
    requires
        0 <= k < ms.len(),
        method_included(ms[k], access, same, isa),
    ensures
        exists|i: int|
            0 <= i < method_entries(ms, cn, access, same, isa).len() && #[trigger] method_entries(
                ms,
                cn,
                access,
                same,
                isa,
            )[i] == method_entry(ms[k], cn),
    decreases ms.len(),
{
    let all = method_entries(ms, cn, access, same, isa);
    let rest = method_entries(ms.drop_last(), cn, access, same, isa);
    if k == ms.len() - 1 {
        assert(all[all.len() - 1] == method_entry(ms[k], cn));
    } else {
        assert(ms.drop_last()[k] == ms[k]);
        lemma_method_entries_complete(ms.drop_last(), cn, access, same, isa, k);
        let i = choose|i: int| 0 <= i < rest.len() && #[trigger] rest[i] == method_entry(ms[k], cn);
        assert(all[i] == rest[i]);
    }
}

/// An offered property's entry is among the property entries.
proof fn lemma_property_entries_complete(
    ps: Seq<PropertyInfo>,
    cn: Seq<char>,
    access: AccessKind,
    same: bool,
    isa: bool,
    k: int,
)
    requires
        0 <= k < ps.len(),
        property_included(ps[k], access, same, isa),
    ensures
        exists|i: int|
            0 <= i < property_entries(ps, cn, access, same, isa).len() && #[trigger] property_entries(
                ps,
                cn,
                access,
                same,
                isa,
            )[i] == property_entry(ps[k], cn, access),
    decreases ps.len(),
{
    let all = property_entries(ps, cn, access, same, isa);
    let rest = property_entries(ps.drop_last(), cn, access, same, isa);
    if k == ps.len() - 1 {
        assert(all[all.len() - 1] == property_entry(ps[k], cn, access));
    } else {
        assert(ps.drop_last()[k] == ps[k]);
        lemma_property_entries_complete(ps.drop_last(), cn, access, same, isa, k);
        let i = choose|i: int| 0 <= i < rest.len() && #[trigger] rest[i] == property_entry(ps[k], cn, access);
        assert(all[i] == rest[i]);
    }
}

/// A visible constant's entry is among the constant entries.
proof fn lemma_constant_entries_complete(cs: Seq<ConstantInfo>, cn: Seq<char>, same: bool, isa: bool, k: int)
    requires
        0 <= k < cs.len(),
        visible(cs[k].visibility, same, isa),
    ensures
        exists|i: int|
            0 <= i < constant_entries(cs, cn, same, isa).len() && #[trigger] constant_entries(cs, cn, same, isa)[i]
                == constant_entry(cs[k], cn),
    decreases cs.len(),
{
    let all = constant_entries(cs, cn, same, isa);
    let rest = constant_entries(cs.drop_last(), cn, same, isa);
    if k == cs.len() - 1 {
        assert(all[all.len() - 1] == constant_entry(cs[k], cn));
    } else {
        assert(cs.drop_last()[k] == cs[k]);
        lemma_constant_entries_complete(cs.drop_last(), cn, same, isa, k);
        let i = choose|i: int| 0 <= i < rest.len() && #[trigger] rest[i] == constant_entry(cs[k], cn);
        assert(all[i] == rest[i]);
    }
}

/// Every member that passes the access and visibility filters is offered,
/// and `::` access (external or through `self`/`static`/`parent`) always
/// offers the `class` keyword.
pub proof fn law_offered_members_all_listed(
    target: ClassInfo,
    access: AccessKind,
    current: Option<&str>,
    isa: bool,
    out: Seq<EntryView>,
)
    requires
        is_stable_sort(out, candidate_entries(target, access, is_same_class(target, current), isa)),
    ensures
        forall|k: int|
            0 <= k < target.methods@.len() && method_included(
                #[trigger] target.methods@[k],
                access,
                is_same_class(target, current),
                isa,
            ) ==> exists|i: int| 0 <= i < out.len() && out[i] == method_entry(target.methods@[k], target.name@),
        forall|k: int|
            0 <= k < target.properties@.len() && property_included(
                #[trigger] target.properties@[k],
                access,
                is_same_class(target, current),
                isa,
            ) ==> exists|i: int|
                0 <= i < out.len() && out[i] == property_entry(target.properties@[k], target.name@, access),
        forall|k: int|
            0 <= k < target.constants@.len() && constants_offered(access) && visible(
                (#[trigger] target.constants@[k]).visibility,
                is_same_class(target, current),
                isa,
            ) ==> exists|i: int| 0 <= i < out.len() && out[i] == constant_entry(target.constants@[k], target.name@),
        is_colon_access(access) ==> exists|i: int| 0 <= i < out.len() && out[i] == class_keyword_entry(),
{
    let same = is_same_class(target, current);
    let cand = candidate_entries(target, access, same, isa);
    let ms = method_entries(target.methods@, target.name@, access, same, isa);
    let ps = property_entries(target.properties@, target.name@, access, same, isa);
    let cs = if constants_offered(access) {
        constant_entries(target.constants@, target.name@, same, isa)
    } else {
        Seq::empty()
    };
    assert forall|k: int|
        0 <= k < target.methods@.len() && method_included(
            #[trigger] target.methods@[k],
            access,
            same,
            isa,
        ) implies exists|i: int| 0 <= i < out.len() && out[i] == method_entry(target.methods@[k], target.name@) by {
        lemma_method_entries_complete(target.methods@, target.name@, access, same, isa, k);
        let j = choose|j: int| 0 <= j < ms.len() && #[trigger] ms[j] == method_entry(target.methods@[k], target.name@);
        assert(cand[j] == ms[j]);
        lemma_stable_sort_keeps_all(out, cand, j);
    }
    assert forall|k: int|
        0 <= k < target.properties@.len() && property_included(
            #[trigger] target.properties@[k],
            access,
            same,
            isa,
        ) implies exists|i: int|
            0 <= i < out.len() && out[i] == property_entry(target.properties@[k], target.name@, access) by {
        lemma_property_entries_complete(target.properties@, target.name@, access, same, isa, k);
        let j = choose|j: int| 0 <= j < ps.len() && #[trigger] ps[j] == property_entry(target.properties@[k], target.name@, access);
        assert(cand[ms.len() + j] == ps[j]);
        lemma_stable_sort_keeps_all(out, cand, ms.len() + j);
    }
    assert forall|k: int|
        0 <= k < target.constants@.len() && constants_offered(access) && visible(
            (#[trigger] target.constants@[k]).visibility,
            same,
            isa,
        ) implies exists|i: int| 0 <= i < out.len() && out[i] == constant_entry(target.constants@[k], target.name@) by {
        lemma_constant_entries_complete(target.constants@, target.name@, same, isa, k);
        let j = choose|j: int| 0 <= j < cs.len() && #[trigger] cs[j] == constant_entry(target.constants@[k], target.name@);
        assert(cand[ms.len() + ps.len() + j] == cs[j]);
        lemma_stable_sort_keeps_all(out, cand, ms.len() + ps.len() + j);
    }
    if is_colon_access(access) {
        let j = cand.len() - 1;
        assert(cand[j] == class_keyword_entry());
        lemma_stable_sort_keeps_all(out, cand, j);
    }
}


/// A property entry inserts exactly the text it is listed and filtered
/// under, and that text is the property's bare name, or `$name` under `::`
/// access (external or through `self`/`static`/`parent`). So `$obj->`
/// completes to `$obj->name` and `Class::` to `Class::$name`.
pub proof fn law_property_entry_inserts_its_name(
    target: ClassInfo,
    access: AccessKind,
    current: Option<&str>,
    isa: bool,
    out: Seq<EntryView>,
    i: int,
)
    requires
        is_stable_sort(out, candidate_entries(target, access, is_same_class(target, current), isa)),
        0 <= i < out.len(),
        out[i].kind == CompletionKind::Property,
    ensures
        out[i].insert_text == out[i].label,
        out[i].filter_text == out[i].label,
        !out[i].is_snippet,
        exists|k: int|
            0 <= k < target.properties@.len() && out[i].label == if is_colon_access(access) {
                "$"@ + (#[trigger] target.properties@[k]).name@
            } else {
                target.properties@[k].name@
            },
        access == AccessKind::Arrow ==> exists|k: int|
            0 <= k < target.properties@.len() && out[i].insert_text == (#[trigger] target.properties@[k]).name@,
{
    law_entries_come_from_offered_members(target, access, current, isa, out, i);
}

/// Each element of a joined list occurs in the joined text.
proof fn lemma_join_contains(list: Seq<Seq<char>>, sep: Seq<char>, i: int)
    requires
        0 <= i < list.len(),
    ensures
        contains_seq(join(list, sep), list[i]),
    decreases list.len(),
{
    let x = list[i];
    let n = x.len() as int;
    if list.len() == 1 {
        assert(join(list, sep).subrange(0int, 0int + list[i].len()) =~= list[i]);
    } else if i == list.len() - 1 {
        let a = join(list.drop_last(), sep) + sep;
        assert(join(list, sep) == a + x);
        assert(join(list, sep).subrange(a.len() as int, a.len() as int + list[i].len()) =~= list[i]);
    } else {
        lemma_join_contains(list.drop_last(), sep, i);
        let d = join(list.drop_last(), sep);
        assert(list.drop_last()[i] == x);
        let j = choose|j: int| 0 <= j && j + n <= d.len() && #[trigger] d.subrange(j, j + n) == x;
        assert(join(list, sep) == d + sep + list.last());
        assert(join(list, sep).subrange(j, j + n) =~= d.subrange(j, j + n));
        assert(join(list, sep).subrange(j, j + list[i].len()) == list[i]);
    }
}

/// In a method's label, every parameter that is neither required nor
/// variadic is followed by ` = ` and its default value, or ` = ...` when
/// the default is not known, with or without a type hint.
pub proof fn law_optional_parameter_shows_default(m: MethodInfo, i: int)
    requires
        0 <= i < m.parameters@.len(),
        !m.parameters@[i].is_required,
        !m.parameters@[i].is_variadic,
    ensures
        contains_seq(
            method_label_spec(m),
            m.parameters@[i].name@ + " = "@ + match m.parameters@[i].default_value {
                Some(d) => d@,
                None => "..."@,
            },
        ),
{
    let p: ParameterInfo = m.parameters@[i];
    let labels = param_labels(m.parameters@);
    let dflt = match p.default_value {
        Some(d) => d@,
        None => "..."@,
    };
    let piece = p.name@ + " = "@ + dflt;
    let pre_core: Seq<char> = if p.is_reference {
        "&"@
    } else {
        Seq::empty()
    };
    let pre: Seq<char> = match p.type_hint {
        Some(t) => t@ + " "@ + pre_core,
        None => pre_core,
    };
    assert(labels[i] =~= pre + piece);
    let joined = join(labels, ", "@);
    lemma_join_contains(labels, ", "@, i);
    let n = labels[i].len() as int;
    let j = choose|j: int| 0 <= j && j + n <= joined.len() && #[trigger] joined.subrange(j, j + n) == labels[i];
    let rt: Seq<char> = match m.return_type {
        Some(r) => ": "@ + r@,
        None => Seq::empty(),
    };
    let x = m.name@ + "("@;
    let label = method_label_spec(m);
    assert(label == x + joined + ")"@ + rt);
    let at = x.len() + j + pre.len();
    assert(joined.subrange(j + pre.len(), j + n) =~= labels[i].subrange(pre.len() as int, n));
    assert(labels[i].subrange(pre.len() as int, n) =~= piece);
    assert(label.subrange(at, at + piece.len()) =~= joined.subrange(j + pre.len(), j + n));
    assert(label.subrange(at, at + piece.len()) == piece);
}

} // verus!
