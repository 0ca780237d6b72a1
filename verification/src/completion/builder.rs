//! Member completion item building.
//!
//! Constructs completion entries from a resolved [`ClassInfo`], filtered by
//! the [`AccessKind`] (arrow, double-colon, or parent double-colon) and by
//! the visibility scope of the cursor.
use vstd::prelude::*;

use crate::completion::item::{CompletionEntry, CompletionKind, EntryView};
use crate::completion::sort::{is_stable_sort, sort_entries, views};
use crate::text::{
    chars_of, decimal, decimal_string, eq_ignore_ascii_case, has_prefix, join, push_char,
    push_chars, str_eq, str_eq_ignore_ascii_case, str_starts_with, string_of, zero_padded5,
    zero_padded5_string,
};
use crate::types::{
    AccessKind, ClassInfo, ConstantInfo, MethodInfo, ParameterInfo, PropertyInfo, Visibility,
};

verus! {

// ─────────────────────────────────────────────────────────────────────
// Specification
// ─────────────────────────────────────────────────────────────────────

/// The name shown for a class: anonymous classes carry synthetic names
/// starting with `__anonymous@`, shown as `anonymous class`.
pub open spec fn display_class_name_spec(name: Seq<char>) -> Seq<char> {
    if has_prefix(name, "__anonymous@"@) {
        "anonymous class"@
    } else {
        name
    }
}

/// `s` with every `$` escaped as `\$` (literal text in snippet syntax).
pub open spec fn escape_dollars(s: Seq<char>) -> Seq<char>
    decreases s.len(),
{
    if s.len() == 0 {
        Seq::empty()
    } else {
        escape_dollars(s.drop_last()) + if s.last() == '$' {
            seq!['\\', '$']
        } else {
            seq![s.last()]
        }
    }
}

/// The required parameters of a list, in order.
pub open spec fn required_params(ps: Seq<ParameterInfo>) -> Seq<ParameterInfo>
    decreases ps.len(),
{
    if ps.len() == 0 {
        Seq::empty()
    } else if ps.last().is_required {
        required_params(ps.drop_last()).push(ps.last())
    } else {
        required_params(ps.drop_last())
    }
}

/// The tab stop for the `i`-th required parameter (counting from 0):
/// `${i+1:name}` with the name's `$` escaped.
pub open spec fn placeholder(i: nat, name: Seq<char>) -> Seq<char> {
    "${"@ + decimal(i + 1) + ":"@ + escape_dollars(name) + "}"@
}

/// The tab stops of all required parameters, in order.
pub open spec fn placeholders(req: Seq<ParameterInfo>) -> Seq<Seq<char>> {
    Seq::new(req.len(), |i: int| placeholder(i as nat, req[i].name@))
}

/// The snippet inserted for a callable: its name, then its required
/// parameters as numbered tab stops, then the final cursor `$0`.
pub open spec fn callable_snippet(name: Seq<char>, params: Seq<ParameterInfo>) -> Seq<char> {
    let req = required_params(params);
    if req.len() == 0 {
        name + "()$0"@
    } else {
        name + "("@ + join(placeholders(req), ", "@) + ")$0"@
    }
}

/// The PHP magic methods, which are invoked implicitly by the runtime.
pub open spec fn magic_method_names() -> Seq<Seq<char>> {
    seq![
        "__construct"@, "__destruct"@, "__clone"@, "__get"@, "__set"@, "__isset"@,
        "__unset"@, "__call"@, "__callStatic"@, "__invoke"@, "__toString"@, "__sleep"@,
        "__wakeup"@, "__serialize"@, "__unserialize"@, "__set_state"@, "__debugInfo"@,
    ]
}

/// `name` is a magic method name, compared ignoring ASCII case.
pub open spec fn is_magic_method_spec(name: Seq<char>) -> bool {
    exists|i: int| 0 <= i < magic_method_names().len() && eq_ignore_ascii_case(#[trigger] magic_method_names()[i], name)
}

/// The variable part of a parameter's label: `&$x`, `...$x` or `$x`.
pub open spec fn param_core(p: ParameterInfo) -> Seq<char> {
    if p.is_reference {
        "&"@ + p.name@
    } else if p.is_variadic {
        "..."@ + p.name@
    } else {
        p.name@
    }
}

/// A parameter as shown in a method label, such as `string $text`; an
/// optional one shows its default value, `$frogs = false`, or `= ...` when
/// the default value is not known.
pub open spec fn param_label(p: ParameterInfo) -> Seq<char> {
    let s = match p.type_hint {
        Some(t) => t@ + " "@ + param_core(p),
        None => param_core(p),
    };
    if !p.is_required && !p.is_variadic {
        s + " = "@ + match p.default_value {
            Some(d) => d@,
            None => "..."@,
        }
    } else {
        s
    }
}

/// The labels of a list of parameters.
pub open spec fn param_labels(ps: Seq<ParameterInfo>) -> Seq<Seq<char>> {
    Seq::new(ps.len(), |i: int| param_label(ps[i]))
}

/// The full signature label of a method, such as
/// `regularCode(string $text, $frogs = ...): string`.
pub open spec fn method_label_spec(m: MethodInfo) -> Seq<char> {
    m.name@ + "("@ + join(param_labels(m.parameters@), ", "@) + ")"@ + match m.return_type {
        Some(r) => ": "@ + r@,
        None => Seq::empty(),
    }
}

/// The cursor is inside the target class itself.
pub open spec fn is_same_class(target: ClassInfo, current: Option<&str>) -> bool {
    match current {
        Some(n) => n@ == target.name@,
        None => false,
    }
}

/// A member of the given visibility may be offered: private members only
/// inside the class itself, protected ones inside the class or a class
/// related to it by inheritance.
pub open spec fn visible(vis: Visibility, same_class: bool, is_self_or_ancestor: bool) -> bool {
    match vis {
        Visibility::Private => same_class,
        Visibility::Protected => same_class || is_self_or_ancestor,
        Visibility::Public => true,
    }
}

/// The access goes through `::` (external, or `self`/`static`/`parent`).
pub open spec fn is_colon_access(access: AccessKind) -> bool {
    access == AccessKind::DoubleColon || access == AccessKind::ParentDoubleColon
}

/// A method is offered: magic methods are suppressed except `__construct`
/// through `::` from the class itself or a subclass; then visibility; then
/// `->` offers instance methods, external `::` static methods and
/// `__construct`, and the other accesses every method.
pub open spec fn method_included(
    m: MethodInfo,
    access: AccessKind,
    same_class: bool,
    is_self_or_ancestor: bool,
) -> bool {
    let is_ctor = eq_ignore_ascii_case(m.name@, "__construct"@);
    &&& (is_magic_method_spec(m.name@) ==> is_ctor && is_self_or_ancestor && is_colon_access(access))
    &&& visible(m.visibility, same_class, is_self_or_ancestor)
    &&& match access {
        AccessKind::Arrow => !m.is_static,
        AccessKind::DoubleColon => m.is_static || is_ctor,
        AccessKind::ParentDoubleColon => true,
        AccessKind::Other => true,
    }
}

/// A property is offered: visibility, then `->` offers instance
/// properties, any `::` static ones, unqualified access all.
pub open spec fn property_included(
    p: PropertyInfo,
    access: AccessKind,
    same_class: bool,
    is_self_or_ancestor: bool,
) -> bool {
    &&& visible(p.visibility, same_class, is_self_or_ancestor)
    &&& match access {
        AccessKind::Arrow => !p.is_static,
        AccessKind::DoubleColon => p.is_static,
        AccessKind::ParentDoubleColon => p.is_static,
        AccessKind::Other => true,
    }
}

/// Constants are offered for `::`, `parent::` and unqualified access.
pub open spec fn constants_offered(access: AccessKind) -> bool {
    access != AccessKind::Arrow
}

/// The detail line `Class: <name>`, followed by ` — <type>` when a type
/// hint is known.
pub open spec fn member_detail(class_name: Seq<char>, type_hint: Option<String>) -> Seq<char> {
    let base = "Class: "@ + display_class_name_spec(class_name);
    match type_hint {
        Some(th) => base + " \u{2014} "@ + th@,
        None => base,
    }
}

/// The entry for a method.
pub open spec fn method_entry(m: MethodInfo, class_name: Seq<char>) -> EntryView {
    EntryView {
        label: method_label_spec(m),
        kind: CompletionKind::Method,
        detail: "Class: "@ + display_class_name_spec(class_name),
        insert_text: callable_snippet(m.name@, m.parameters@),
        is_snippet: true,
        filter_text: m.name@,
        deprecated: m.is_deprecated,
    }
}

/// The name a property is offered under: `$name` through `::`, the bare
/// name otherwise.
pub open spec fn property_display_name(p: PropertyInfo, access: AccessKind) -> Seq<char> {
    if is_colon_access(access) {
        "$"@ + p.name@
    } else {
        p.name@
    }
}

/// The entry for a property.
pub open spec fn property_entry(p: PropertyInfo, class_name: Seq<char>, access: AccessKind) -> EntryView {
    EntryView {
        label: property_display_name(p, access),
        kind: CompletionKind::Property,
        detail: member_detail(class_name, p.type_hint),
        insert_text: property_display_name(p, access),
        is_snippet: false,
        filter_text: property_display_name(p, access),
        deprecated: p.is_deprecated,
    }
}

/// The entry for a constant.
pub open spec fn constant_entry(c: ConstantInfo, class_name: Seq<char>) -> EntryView {
    EntryView {
        label: c.name@,
        kind: CompletionKind::Constant,
        detail: member_detail(class_name, c.type_hint),
        insert_text: c.name@,
        is_snippet: false,
        filter_text: c.name@,
        deprecated: c.is_deprecated,
    }
}

/// The entry for the `::class` keyword.
pub open spec fn class_keyword_entry() -> EntryView {
    EntryView {
        label: "class"@,
        kind: CompletionKind::Keyword,
        detail: "class-string"@,
        insert_text: "class"@,
        is_snippet: false,
        filter_text: "class"@,
        deprecated: false,
    }
}

/// The entries of the offered methods, in declaration order.
pub open spec fn method_entries(
    ms: Seq<MethodInfo>,
    class_name: Seq<char>,
    access: AccessKind,
    same_class: bool,
    is_self_or_ancestor: bool,
) -> Seq<EntryView>
    decreases ms.len(),
{
    if ms.len() == 0 {
        Seq::empty()
    } else {
        let rest = method_entries(ms.drop_last(), class_name, access, same_class, is_self_or_ancestor);
        if method_included(ms.last(), access, same_class, is_self_or_ancestor) {
            rest.push(method_entry(ms.last(), class_name))
        } else {
            rest
        }
    }
}

/// The entries of the offered properties, in declaration order.
pub open spec fn property_entries(
    ps: Seq<PropertyInfo>,
    class_name: Seq<char>,
    access: AccessKind,
    same_class: bool,
    is_self_or_ancestor: bool,
) -> Seq<EntryView>
    decreases ps.len(),
{
    if ps.len() == 0 {
        Seq::empty()
    } else {
        let rest = property_entries(ps.drop_last(), class_name, access, same_class, is_self_or_ancestor);
        if property_included(ps.last(), access, same_class, is_self_or_ancestor) {
            rest.push(property_entry(ps.last(), class_name, access))
        } else {
            rest
        }
    }
}

/// The entries of the visible constants, in declaration order.
pub open spec fn constant_entries(
    cs: Seq<ConstantInfo>,
    class_name: Seq<char>,
    same_class: bool,
    is_self_or_ancestor: bool,
) -> Seq<EntryView>
    decreases cs.len(),
{
    if cs.len() == 0 {
        Seq::empty()
    } else {
        let rest = constant_entries(cs.drop_last(), class_name, same_class, is_self_or_ancestor);
        if visible(cs.last().visibility, same_class, is_self_or_ancestor) {
            rest.push(constant_entry(cs.last(), class_name))
        } else {
            rest
        }
    }
}

/// All offered entries before ordering: methods, then properties, then
/// constants (when offered), then `class` for `::` access.
pub open spec fn candidate_entries(
    target: ClassInfo,
    access: AccessKind,
    same_class: bool,
    is_self_or_ancestor: bool,
) -> Seq<EntryView> {
    let ms = method_entries(target.methods@, target.name@, access, same_class, is_self_or_ancestor);
    let ps = property_entries(target.properties@, target.name@, access, same_class, is_self_or_ancestor);
    let cs = if constants_offered(access) {
        constant_entries(target.constants@, target.name@, same_class, is_self_or_ancestor)
    } else {
        Seq::empty()
    };
    let kw = if is_colon_access(access) {
        seq![class_keyword_entry()]
    } else {
        Seq::empty()
    };
    ms + ps + cs + kw
}

// ─────────────────────────────────────────────────────────────────────
// Implementation
// ─────────────────────────────────────────────────────────────────────

/// Return a user-friendly class name for display in completion item details.
///
/// Anonymous classes have synthetic names like `__anonymous@156` which are
/// meaningless to the user. This replaces them with `"anonymous class"`.
pub fn display_class_name(name: &str) -> (r: &str)
    ensures
        r@ == display_class_name_spec(name@),
{
    if str_starts_with(name, "__anonymous@") {
        "anonymous class"
    } else {
        name
    }
}

/// Appends `s` with each `$` written as `\$`.
fn push_escaped(out: &mut String, s: &str)
    ensures
        final(out)@ == old(out)@ + escape_dollars(s@),
{
    let v = chars_of(s);
    let n = v.len();
    for i in 0..n
        invariant
            n == v@.len(),
            v@ == s@,
            out@ == old(out)@ + escape_dollars(v@.take(i as int)),
    {
        assert(v@.take(i + 1).drop_last() =~= v@.take(i as int));
        if v[i] == '$' {
            push_char(out, '\\');
            push_char(out, '$');
        } else {
            push_char(out, v[i]);
        }
        assert(out@ =~= old(out)@ + escape_dollars(v@.take(i + 1)));
    }
    assert(v@.take(n as int) =~= v@);
}

proof fn lemma_required_params_len(ps: Seq<ParameterInfo>)
    ensures
        required_params(ps).len() <= ps.len(),
    decreases ps.len(),
{
    if ps.len() > 0 {
        lemma_required_params_len(ps.drop_last());
    }
}

/// Build an LSP snippet string for a callable (function, method, or constructor).
///
/// Required parameters are included as numbered tab stops with their
/// PHP variable name as placeholder text.  Optional and variadic
/// parameters are omitted — they can be filled in via signature help.
///
/// | call                                       | result                              |
/// |--------------------------------------------|-------------------------------------|
/// | `("reset", &[])`                           | `"reset()$0"`                       |
/// | `("makeText", &[req($text), opt($long)])`  | `"makeText(${1:\\$text})$0"`        |
/// | `("add", &[req($a), req($b)])`             | `"add(${1:\\$a}, ${2:\\$b})$0"`     |
pub fn build_callable_snippet(name: &str, params: &[ParameterInfo]) -> (r: String)
    ensures
        r@ == callable_snippet(name@, params@),
{
    // The placeholders text, joined by ", ", and how many there are.
    let mut body = String::new();
    let mut count: usize = 0;
    let n = params.len();
    for i in 0..n
        invariant
            n == params@.len(),
            count == required_params(params@.take(i as int)).len(),
            count <= i,
            body@ == join(placeholders(required_params(params@.take(i as int))), ", "@),
    {
        let ghost before = required_params(params@.take(i as int));
        assert(params@.take(i + 1).drop_last() =~= params@.take(i as int));
        assert(params@.take(i + 1).last() == params@[i as int]);
        if params[i].is_required {
            let ghost after = before.push(params@[i as int]);
            assert(placeholders(after).drop_last() =~= placeholders(before));
            if count > 0 {
                body.append(", ");
            }
            body.append("${");
            let digits = decimal_string(count + 1);
            push_chars(&mut body, &digits);
            body.append(":");
            push_escaped(&mut body, params[i].name.as_str());
            body.append("}");
            count = count + 1;
            assert(placeholders(after).last() == placeholder(before.len(), params@[i as int].name@));
            assert(body@ =~= join(placeholders(after), ", "@));
        }
    }
    assert(params@.take(n as int) =~= params@);
    let mut r = string_of(name);
    if count == 0 {
        r.append("()$0");
    } else {
        r.append("(");
        r.append(body.as_str());
        r.append(")$0");
    }
    r
}

/// Check whether a method name is a PHP magic method that should be
/// excluded from completion results.
pub fn is_magic_method(name: &str) -> (r: bool)
    ensures
        r == is_magic_method_spec(name@),
{
    let names: [&str; 17] = [
        "__construct", "__destruct", "__clone", "__get", "__set", "__isset", "__unset",
        "__call", "__callStatic", "__invoke", "__toString", "__sleep", "__wakeup",
        "__serialize", "__unserialize", "__set_state", "__debugInfo",
    ];
    assert(names@.map_values(|s: &str| s@) =~= magic_method_names());
    let mut i: usize = 0;
    while i < 17
        invariant
            i <= 17,
            names@.map_values(|s: &str| s@) == magic_method_names(),
            forall|j: int| 0 <= j < i ==> !eq_ignore_ascii_case(#[trigger] magic_method_names()[j], name@),
        decreases 17 - i,
    {
        assert(magic_method_names()[i as int] == names@[i as int]@);
        if str_eq_ignore_ascii_case(names[i], name) {
            return true;
        }
        i = i + 1;
    }
    false
}

/// Builds a parameter's label.
fn build_param_label(p: &ParameterInfo) -> (r: String)
    ensures
        r@ == param_label(*p),
{
    let mut s = String::new();
    match &p.type_hint {
        Some(th) => {
            s.append(th.as_str());
            s.append(" ");
        },
        None => {},
    }
    if p.is_reference {
        s.append("&");
        s.append(p.name.as_str());
    } else if p.is_variadic {
        s.append("...");
        s.append(p.name.as_str());
    } else {
        s.append(p.name.as_str());
    }
    if !p.is_required && !p.is_variadic {
        s.append(" = ");
        match &p.default_value {
            Some(d) => s.append(d.as_str()),
            None => s.append("..."),
        }
    }
    assert(s@ =~= param_label(*p));
    s
}

/// Build the label showing the full method signature.
///
/// Example: `regularCode(string $text, $frogs = false): string`
pub fn build_method_label(method: &MethodInfo) -> (r: String)
    ensures
        r@ == method_label_spec(*method),
{
    let ps = &method.parameters;
    let n = ps.len();
    let mut params = String::new();
    for i in 0..n
        invariant
            n == ps@.len(),
            params@ == join(param_labels(ps@.take(i as int)), ", "@),
    {
        assert(param_labels(ps@.take(i + 1)).drop_last() =~= param_labels(ps@.take(i as int)));
        if i > 0 {
            params.append(", ");
        }
        let label = build_param_label(&ps[i]);
        params.append(label.as_str());
        assert(params@ =~= join(param_labels(ps@.take(i + 1)), ", "@));
    }
    assert(ps@.take(n as int) =~= ps@);
    let mut r = string_of(method.name.as_str());
    r.append("(");
    r.append(params.as_str());
    r.append(")");
    match &method.return_type {
        Some(ret) => {
            r.append(": ");
            r.append(ret.as_str());
        },
        None => {},
    }
    assert(r@ =~= method_label_spec(*method));
    r
}


/// Builds the entry for an offered method.
fn build_method_entry(m: &MethodInfo, class_name: &str) -> (e: CompletionEntry)
    ensures
        e@ == method_entry(*m, class_name@),
{
    let mut detail = string_of("Class: ");
    detail.append(display_class_name(class_name));
    CompletionEntry {
        label: build_method_label(m),
        kind: CompletionKind::Method,
        detail,
        insert_text: build_callable_snippet(m.name.as_str(), m.parameters.as_slice()),
        is_snippet: true,
        filter_text: string_of(m.name.as_str()),
        deprecated: m.is_deprecated,
        sort_text: String::new(),
    }
}

/// Builds the detail line of a property or constant.
fn build_member_detail(class_name: &str, type_hint: &Option<String>) -> (r: String)
    ensures
        r@ == member_detail(class_name@, *type_hint),
{
    let mut detail = string_of("Class: ");
    detail.append(display_class_name(class_name));
    match type_hint {
        Some(th) => {
            detail.append(" \u{2014} ");
            detail.append(th.as_str());
        },
        None => {},
    }
    detail
}

/// Builds the entry for an offered property.
fn build_property_entry(p: &PropertyInfo, class_name: &str, access: AccessKind) -> (e: CompletionEntry)
    ensures
        e@ == property_entry(*p, class_name@, access),
{
    let display_name = if access == AccessKind::DoubleColon || access == AccessKind::ParentDoubleColon {
        let mut d = string_of("$");
        d.append(p.name.as_str());
        d
    } else {
        string_of(p.name.as_str())
    };
    CompletionEntry {
        label: string_of(display_name.as_str()),
        kind: CompletionKind::Property,
        detail: build_member_detail(class_name, &p.type_hint),
        insert_text: string_of(display_name.as_str()),
        is_snippet: false,
        filter_text: display_name,
        deprecated: p.is_deprecated,
        sort_text: String::new(),
    }
}

/// Builds the entry for a visible constant.
fn build_constant_entry(c: &ConstantInfo, class_name: &str) -> (e: CompletionEntry)
    ensures
        e@ == constant_entry(*c, class_name@),
{
    CompletionEntry {
        label: string_of(c.name.as_str()),
        kind: CompletionKind::Constant,
        detail: build_member_detail(class_name, &c.type_hint),
        insert_text: string_of(c.name.as_str()),
        is_snippet: false,
        filter_text: string_of(c.name.as_str()),
        deprecated: c.is_deprecated,
        sort_text: String::new(),
    }
}

/// Whether a visibility is offered in the cursor's scope.
fn is_visible(vis: Visibility, same_class: bool, is_self_or_ancestor: bool) -> (r: bool)
    ensures
        r == visible(vis, same_class, is_self_or_ancestor),
{
    match vis {
        Visibility::Private => same_class,
        Visibility::Protected => same_class || is_self_or_ancestor,
        Visibility::Public => true,
    }
}

/// Whether a method is offered.
fn include_method(m: &MethodInfo, access: AccessKind, same_class: bool, is_self_or_ancestor: bool) -> (r: bool)
    ensures
        r == method_included(*m, access, same_class, is_self_or_ancestor),
{
    // `__construct` is meaningful to call explicitly via `::` when inside
    // the same class or a subclass (e.g. `parent::__construct(...)`).
    // Outside of that relationship, magic methods are suppressed.
    let is_constructor = str_eq_ignore_ascii_case(m.name.as_str(), "__construct");
    if is_magic_method(m.name.as_str()) {
        let allow = is_constructor && is_self_or_ancestor && (access == AccessKind::DoubleColon
            || access == AccessKind::ParentDoubleColon);
        if !allow {
            return false;
        }
    }
    if !is_visible(m.visibility, same_class, is_self_or_ancestor) {
        return false;
    }
    match access {
        AccessKind::Arrow => !m.is_static,
        // External `ClassName::` shows only static methods, but
        // `__construct` is routinely called via `ClassName::__construct()`
        // from within a subclass.
        AccessKind::DoubleColon => m.is_static || is_constructor,
        // `self::`, `static::` and `parent::` show both static and
        // non-static methods.
        AccessKind::ParentDoubleColon => true,
        AccessKind::Other => true,
    }
}

/// Whether a property is offered.
fn include_property(p: &PropertyInfo, access: AccessKind, same_class: bool, is_self_or_ancestor: bool) -> (r: bool)
    ensures
        r == property_included(*p, access, same_class, is_self_or_ancestor),
{
    if !is_visible(p.visibility, same_class, is_self_or_ancestor) {
        return false;
    }
    match access {
        AccessKind::Arrow => !p.is_static,
        AccessKind::DoubleColon => p.is_static,
        AccessKind::ParentDoubleColon => p.is_static,
        AccessKind::Other => true,
    }
}

/// Build completion items for a resolved class, filtered by access kind
/// and visibility scope.
///
/// - `Arrow` access: returns only non-static methods and properties.
/// - `DoubleColon` access: returns only static methods, static properties, and constants.
/// - `ParentDoubleColon` access: returns both static and non-static methods,
///   static properties, and constants; visibility is filtered as below, so
///   private members are left out unless the cursor is in the target class
///   itself.
/// - `Other` access: returns all members.
///
/// Visibility filtering based on `current_class_name` and `is_self_or_ancestor`:
/// - `None` (top-level code): only **public** members are shown, or
///   **public** and **protected** ones when `is_self_or_ancestor` is `true`.
/// - `Some(name)` where `name == target_class.name`: all members are shown
///   (same-class access, e.g. `$this->`).
/// - `is_self_or_ancestor == true`: **public** and **protected** members
///   are shown (the cursor is inside the target class or a subclass).
/// - Otherwise: only **public** members are shown.
///
/// `is_self_or_ancestor` should be `true` when the cursor is inside the
/// target class itself or inside a class that (transitively) extends the
/// target.  When `true`, `__construct` is offered for `::` access.  When
/// `false`, magic methods are suppressed entirely.
///
/// The entries come out sorted case-insensitively by filter text, and
/// each carries its position, zero-padded to five digits, as sort text.
pub fn build_completion_items(
    target_class: &ClassInfo,
    access_kind: AccessKind,
    current_class_name: Option<&str>,
    is_self_or_ancestor: bool,
) -> (items: Vec<CompletionEntry>)
    ensures
        is_stable_sort(
            views(items@),
            candidate_entries(
                *target_class,
                access_kind,
                is_same_class(*target_class, current_class_name),
                is_self_or_ancestor,
            ),
        ),
        forall|i: int| 0 <= i < items@.len() ==> (#[trigger] items@[i]).sort_text@ == zero_padded5(i as nat),
{
    let same_class = match current_class_name {
        Some(name) => str_eq(name, target_class.name.as_str()),
        None => false,
    };
    let class_name = target_class.name.as_str();
    let ghost cn = target_class.name@;
    let mut items: Vec<CompletionEntry> = Vec::new();

    // Methods
    let ms = &target_class.methods;
    let n = ms.len();
    for i in 0..n
        invariant
            n == ms@.len(),
            class_name@ == cn,
            views(items@) == method_entries(ms@.take(i as int), cn, access_kind, same_class, is_self_or_ancestor),
    {
        assert(ms@.take(i + 1).drop_last() =~= ms@.take(i as int));
        let ghost before = items@;
        if include_method(&ms[i], access_kind, same_class, is_self_or_ancestor) {
            let e = build_method_entry(&ms[i], class_name);
            items.push(e);
            assert(views(items@) =~= views(before).push(e@));
        }
    }
    assert(ms@.take(n as int) =~= ms@);
    let ghost after_methods = views(items@);

    // Properties
    let ps = &target_class.properties;
    let n = ps.len();
    for i in 0..n
        invariant
            n == ps@.len(),
            class_name@ == cn,
            views(items@) == after_methods + property_entries(ps@.take(i as int), cn, access_kind, same_class, is_self_or_ancestor),
    {
        assert(ps@.take(i + 1).drop_last() =~= ps@.take(i as int));
        let ghost before = items@;
        if include_property(&ps[i], access_kind, same_class, is_self_or_ancestor) {
            let e = build_property_entry(&ps[i], class_name, access_kind);
            items.push(e);
            assert(views(items@) =~= views(before).push(e@));
        }
    }
    assert(ps@.take(n as int) =~= ps@);
    let ghost after_properties = views(items@);

    // Constants — only for `::`, `parent::`, or unqualified access
    if access_kind == AccessKind::DoubleColon || access_kind == AccessKind::ParentDoubleColon
        || access_kind == AccessKind::Other {
        let cs = &target_class.constants;
        let n = cs.len();
        for i in 0..n
            invariant
                n == cs@.len(),
                class_name@ == cn,
                views(items@) == after_properties + constant_entries(cs@.take(i as int), cn, same_class, is_self_or_ancestor),
        {
            assert(cs@.take(i + 1).drop_last() =~= cs@.take(i as int));
            let ghost before = items@;
            if is_visible(cs[i].visibility, same_class, is_self_or_ancestor) {
                let e = build_constant_entry(&cs[i], class_name);
                items.push(e);
                assert(views(items@) =~= views(before).push(e@));
            }
        }
        assert(cs@.take(n as int) =~= cs@);
    }
    let ghost after_constants = views(items@);

    // `::class` keyword — the fully qualified class name as a string.
    if access_kind == AccessKind::DoubleColon || access_kind == AccessKind::ParentDoubleColon {
        let ghost before = items@;
        let e = CompletionEntry {
            label: string_of("class"),
            kind: CompletionKind::Keyword,
            detail: string_of("class-string"),
            insert_text: string_of("class"),
            is_snippet: false,
            filter_text: string_of("class"),
            deprecated: false,
            sort_text: String::new(),
        };
        items.push(e);
        assert(views(items@) =~= views(before).push(e@));
    }
    assert(views(items@) =~= candidate_entries(*target_class, access_kind, same_class, is_self_or_ancestor));

    // Sort case-insensitively and give each entry its position as sort text.
    let sorted = sort_entries(items);
    let ghost sorted_views = views(sorted@);
    let n = sorted.len();
    let mut rest = sorted;
    let mut result: Vec<CompletionEntry> = Vec::new();
    let mut i: usize = 0;
    while i < n
        invariant
            n == sorted_views.len(),
            i <= n,
            views(rest@) == sorted_views.skip(i as int),
            rest@.len() == n - i,
            views(result@) == sorted_views.take(i as int),
            forall|t: int| 0 <= t < i ==> (#[trigger] result@[t]).sort_text@ == zero_padded5(t as nat),
        decreases n - i,
    {
        let ghost old_rest = rest@;
        let mut e = rest.remove(0);
        e.sort_text = zero_padded5_string(i);
        proof {
            assert(e@ == views(old_rest)[0]);
            assert forall|t: int| 0 <= t < rest@.len() implies #[trigger] views(rest@)[t] == sorted_views.skip(i + 1)[t] by {
                assert(rest@[t] == old_rest[t + 1]);
                assert(views(old_rest)[t + 1] == sorted_views.skip(i as int)[t + 1]);
            }
        }
        let ghost before = result@;
        result.push(e);
        proof {
            assert(views(rest@) =~= sorted_views.skip(i + 1));
            assert(views(result@) =~= views(before).push(e@));
            assert(sorted_views.take(i + 1) =~= sorted_views.take(i as int).push(sorted_views[i as int]));
        }
        i = i + 1;
    }
    assert(sorted_views.take(n as int) =~= sorted_views);
    result
}

} // verus!
