//! Style sheets, selectors, and which rules apply to an element.
use crate::chars::chars_of;
use crate::style::{
    empty_style, lemma_merge_associative, lemma_merge_empty_is_identity, lemma_merge_idempotent,
    merged_style, Style,
};
use crate::words::{contains_word, has_word, split_words, words};
use vstd::hash_map::StringHashMap;
use vstd::prelude::*;

verus! {

/// An element's attributes by name.
pub type Attributes = StringHashMap<String>;

/// A simple selector: an element tag or a class name.
#[derive(Debug, PartialEq)]
pub enum Selector {
    Tag(String),
    Class(String),
}

/// Declarations that apply to the elements a selector matches, in source order.
pub struct Rule<V> {
    pub selector: Selector,
    pub declarations: Vec<Style<V>>,
}

/// The rules of one or more style sheets, in source order.
pub struct StyleSheet<V> {
    pub rules: Vec<Rule<V>>,
}

impl<V> StyleSheet<V> {
    pub fn new() -> (r: Self)
        ensures
            r.rules@.len() == 0,
    {
        StyleSheet { rules: Vec::new() }
    }

    /// Append a rule after the existing ones.
    pub fn add_rule(&mut self, rule: Rule<V>)
        ensures
            final(self).rules@ == old(self).rules@.push(rule),
    {
        self.rules.push(rule);
    }
}

/// `s1` and `s2` are the same selector.
pub open spec fn same_selector(s1: Selector, s2: Selector) -> bool {
    match (s1, s2) {
        (Selector::Tag(a), Selector::Tag(b)) => a@ == b@,
        (Selector::Class(a), Selector::Class(b)) => a@ == b@,
        _ => false,
    }
}

/// Selector equality.
pub fn selector_equals(s1: &Selector, s2: &Selector) -> (r: bool)
    ensures
        r == same_selector(*s1, *s2),
{
    match (s1, s2) {
        (Selector::Tag(a), Selector::Tag(b)) => *a == *b,
        (Selector::Class(a), Selector::Class(b)) => *a == *b,
        _ => false,
    }
}

/// A selector matches an element with tag attribute `tag` and class
/// attribute `classes`: a tag selector by equality, a class selector when its
/// name is one of the whitespace-separated words of the class attribute.
pub open spec fn selector_matches(
    selector: Selector,
    tag: Option<Seq<char>>,
    classes: Option<Seq<char>>,
) -> bool {
    match selector {
        Selector::Tag(t) => tag == Some(t@),
        Selector::Class(c) => classes is Some && has_word(classes->0, c@),
    }
}

/// `s` with each of `decls` applied in order.
pub open spec fn apply_declarations<V>(s: Style<V>, decls: Seq<Style<V>>) -> Style<V>
    decreases decls.len(),
{
    if decls.len() == 0 {
        s
    } else {
        merged_style(apply_declarations(s, decls.drop_last()), decls.last())
    }
}

/// `s` with the declarations of every matching rule applied, in rule order.
pub open spec fn cascade<V>(
    s: Style<V>,
    rules: Seq<Rule<V>>,
    tag: Option<Seq<char>>,
    classes: Option<Seq<char>>,
) -> Style<V>
    decreases rules.len(),
{
    if rules.len() == 0 {
        s
    } else {
        let before = cascade(s, rules.drop_last(), tag, classes);
        if selector_matches(rules.last().selector, tag, classes) {
            apply_declarations(before, rules.last().declarations@)
        } else {
            before
        }
    }
}

/// The value of an attribute, as characters.
pub open spec fn attr_value(attributes: Map<Seq<char>, String>, key: Seq<char>) -> Option<
    Seq<char>,
> {
    if attributes.contains_key(key) {
        Some(attributes[key]@)
    } else {
        None
    }
}

/// The attribute that holds an element's tag name.
pub open spec fn tag_key() -> Seq<char> {
    "tag"@
}

/// The attribute that holds an element's class list.
pub open spec fn class_key() -> Seq<char> {
    "class"@
}

/// Whether `selector` matches an element with these attributes.
pub fn selector_matches_element(selector: &Selector, tag: Option<&String>, classes: Option<&String>) -> (r: bool)
    ensures
        r == selector_matches(
            *selector,
            match tag {
                Some(t) => Some(t@),
                None => None,
            },
            match classes {
                Some(c) => Some(c@),
                None => None,
            },
        ),
{
    match selector {
        Selector::Tag(t) => match tag {
            Some(name) => *t == *name,
            None => false,
        },
        Selector::Class(c) => match classes {
            Some(list) => {
                let words = chars_of(list.as_str());
                let wanted = chars_of(c.as_str());
                contains_word(&words, &wanted)
            },
            None => false,
        },
    }
}

/// Apply every declaration of `decls` onto `style`, in order.
pub fn apply_all<V: Copy>(style: &mut Style<V>, decls: &Vec<Style<V>>)
    ensures
        *final(style) == apply_declarations(*old(style), decls@),
{
    let ghost start = *style;
    let mut j: usize = 0;
    while j < decls.len()
        invariant
            j <= decls.len(),
            *style == apply_declarations(start, decls@.take(j as int)),
        decreases decls.len() - j,
    {
        assert(decls@.take(j + 1).drop_last() == decls@.take(j as int));
        style.merge(&decls[j]);
        j += 1;
    }
    assert(decls@.take(decls.len() as int) == decls@);
}

/// Apply, in order, the declarations of every rule of `style_sheet` whose
/// selector matches the element with `attributes` (its `tag` and `class`
/// attributes).
pub fn apply_matching_rules<V: Copy>(
    style: &mut Style<V>,
    attributes: &StringHashMap<String>,
    style_sheet: &StyleSheet<V>,
)
    ensures
        *final(style) == cascade(
            *old(style),
            style_sheet.rules@,
            attr_value(attributes@, tag_key()),
            attr_value(attributes@, class_key()),
        ),
{
    let tag_name = attributes.get("tag");
    let class_attr = attributes.get("class");
    let ghost tag = attr_value(attributes@, tag_key());
    let ghost classes = attr_value(attributes@, class_key());
    proof {
        reveal_strlit("tag");
        reveal_strlit("class");
    }
    let ghost start = *style;
    let mut i: usize = 0;
    while i < style_sheet.rules.len()
        invariant
            i <= style_sheet.rules.len(),
            tag == match tag_name {
                Some(t) => Some(t@),
                None => None::<Seq<char>>,
            },
            classes == match class_attr {
                Some(c) => Some(c@),
                None => None::<Seq<char>>,
            },
            *style == cascade(start, style_sheet.rules@.take(i as int), tag, classes),
        decreases style_sheet.rules.len() - i,
    {
        let rule = &style_sheet.rules[i];
        assert(style_sheet.rules@.take(i + 1).drop_last() == style_sheet.rules@.take(i as int));
        if selector_matches_element(&rule.selector, tag_name, class_attr) {
            apply_all(style, &rule.declarations);
        }
        i += 1;
    }
    assert(style_sheet.rules@.take(style_sheet.rules.len() as int) == style_sheet.rules@);
}


/// `selector` is the class selector for `name`.
pub open spec fn is_class_selector(selector: Selector, name: Seq<char>) -> bool {
    match selector {
        Selector::Class(c) => c@ == name,
        _ => false,
    }
}

/// The index of the first rule from `i` on whose selector is the class
/// selector for `name`.
pub open spec fn find_class_rule_from<V>(rules: Seq<Rule<V>>, name: Seq<char>, i: int) -> Option<int>
    decreases rules.len() - i,
{
    if i < 0 || i >= rules.len() {
        None
    } else if is_class_selector(rules[i].selector, name) {
        Some(i)
    } else {
        find_class_rule_from(rules, name, i + 1)
    }
}

impl<V> StyleSheet<V> {
    /// The index of the first rule for the class `name`.
    pub fn find_class_rule(&self, name: &Vec<char>) -> (r: Option<usize>)
        ensures
            match r {
                Some(k) => find_class_rule_from(self.rules@, name@, 0) == Some(k as int) && k
                    < self.rules@.len(),
                None => find_class_rule_from(self.rules@, name@, 0) is None,
            },
    {
        let mut i: usize = 0;
        while i < self.rules.len()
            invariant
                i <= self.rules.len(),
                find_class_rule_from(self.rules@, name@, 0) == find_class_rule_from(
                    self.rules@,
                    name@,
                    i as int,
                ),
            decreases self.rules.len() - i,
        {
            let found = match &self.rules[i].selector {
                Selector::Class(c) => {
                    let chars = chars_of(c.as_str());
                    vec_equals(&chars, name)
                },
                Selector::Tag(_) => false,
            };
            if found {
                return Some(i);
            }
            i += 1;
        }
        None
    }
}

/// `s` with, for each class name of `names` in order, the declarations of
/// the first rule for that class applied; a name without a rule adds
/// nothing.
pub open spec fn class_rules_cascade<V>(s: Style<V>, rules: Seq<Rule<V>>, names: Seq<Seq<char>>) -> Style<V>
    decreases names.len(),
{
    if names.len() == 0 {
        s
    } else {
        let before = class_rules_cascade(s, rules, names.drop_last());
        match find_class_rule_from(rules, names.last(), 0) {
            Some(k) => apply_declarations(before, rules[k].declarations@),
            None => before,
        }
    }
}

/// The style an element gets from a style sheet during layout: every rule
/// for its tag, in sheet order; then, for each word of its class attribute
/// in the order written, the first rule for that class.
pub open spec fn element_cascade<V>(
    s: Style<V>,
    rules: Seq<Rule<V>>,
    tag: Option<Seq<char>>,
    classes: Option<Seq<char>>,
) -> Style<V> {
    let tagged = cascade(s, rules, tag, None);
    match classes {
        Some(c) => class_rules_cascade(tagged, rules, words(c)),
        None => tagged,
    }
}

/// Apply the rules of `style_sheet` for the element with `attributes` as
/// layout does: its tag rules in sheet order, then the first rule for each
/// of its classes, in the order the class attribute lists them.
pub fn apply_element_rules<V: Copy>(
    style: &mut Style<V>,
    attributes: &StringHashMap<String>,
    style_sheet: &StyleSheet<V>,
)
    ensures
        *final(style) == element_cascade(
            *old(style),
            style_sheet.rules@,
            attr_value(attributes@, tag_key()),
            attr_value(attributes@, class_key()),
        ),
{
    let tag_name = attributes.get("tag");
    let class_attr = attributes.get("class");
    let ghost tag = attr_value(attributes@, tag_key());
    let ghost classes = attr_value(attributes@, class_key());
    proof {
        reveal_strlit("tag");
        reveal_strlit("class");
    }
    let ghost start = *style;
    let mut i: usize = 0;
    while i < style_sheet.rules.len()
        invariant
            i <= style_sheet.rules.len(),
            tag == match tag_name {
                Some(t) => Some(t@),
                None => None::<Seq<char>>,
            },
            *style == cascade(start, style_sheet.rules@.take(i as int), tag, None),
        decreases style_sheet.rules.len() - i,
    {
        let rule = &style_sheet.rules[i];
        assert(style_sheet.rules@.take(i + 1).drop_last() == style_sheet.rules@.take(i as int));
        if selector_matches_element(&rule.selector, tag_name, None) {
            apply_all(style, &rule.declarations);
        }
        i += 1;
    }
    assert(style_sheet.rules@.take(style_sheet.rules.len() as int) == style_sheet.rules@);
    if let Some(list) = class_attr {
        let names = split_words(&chars_of(list.as_str()));
        let ghost tagged = *style;
        let ghost name_seq = names@.map_values(|w: Vec<char>| w@);
        let mut j: usize = 0;
        while j < names.len()
            invariant
                j <= names.len(),
                name_seq == names@.map_values(|w: Vec<char>| w@),
                *style == class_rules_cascade(tagged, style_sheet.rules@, name_seq.take(j as int)),
            decreases names.len() - j,
        {
            assert(name_seq.take(j + 1).drop_last() == name_seq.take(j as int));
            assert(name_seq.take(j + 1).last() == names@[j as int]@);
            match style_sheet.find_class_rule(&names[j]) {
                Some(k) => apply_all(style, &style_sheet.rules[k].declarations),
                None => {},
            }
            j += 1;
        }
        assert(name_seq.take(names.len() as int) == name_seq);
    }
}

/// Element-wise equality of character vectors.
pub fn vec_equals(a: &Vec<char>, b: &Vec<char>) -> (r: bool)
    ensures
        r == (a@ == b@),
{
    if a.len() != b.len() {
        return false;
    }
    let mut i: usize = 0;
    while i < a.len()
        invariant
            a.len() == b.len(),
            i <= a.len(),
            forall|j: int| 0 <= j < i ==> a@[j] == b@[j],
        decreases a.len() - i,
    {
        if a[i] != b[i] {
            return false;
        }
        i += 1;
    }
    assert(a@ =~= b@);
    true
}

/// Applying declarations one by one is applying their combination at once.
pub proof fn lemma_declarations_combine<V>(s: Style<V>, decls: Seq<Style<V>>)
    ensures
        apply_declarations(s, decls) == merged_style(s, apply_declarations(empty_style::<V>(), decls)),
    decreases decls.len(),
{
    if decls.len() == 0 {
        lemma_merge_empty_is_identity(s);
    } else {
        lemma_declarations_combine(s, decls.drop_last());
        lemma_merge_associative(
            s,
            apply_declarations(empty_style::<V>(), decls.drop_last()),
            decls.last(),
        );
    }
}

/// Applying the same declarations again changes nothing.
pub proof fn lemma_declarations_reapplied<V>(s: Style<V>, decls: Seq<Style<V>>)
    ensures
        apply_declarations(apply_declarations(s, decls), decls) == apply_declarations(s, decls),
{
    let d = apply_declarations(empty_style::<V>(), decls);
    lemma_declarations_combine(s, decls);
    lemma_declarations_combine(apply_declarations(s, decls), decls);
    lemma_merge_idempotent(s, d);
}

/// Cascading a style sheet is applying its combination at once.
pub proof fn lemma_cascade_combines<V>(
    s: Style<V>,
    rules: Seq<Rule<V>>,
    tag: Option<Seq<char>>,
    classes: Option<Seq<char>>,
)
    ensures
        cascade(s, rules, tag, classes) == merged_style(
            s,
            cascade(empty_style::<V>(), rules, tag, classes),
        ),
    decreases rules.len(),
{
    if rules.len() == 0 {
        lemma_merge_empty_is_identity(s);
    } else {
        lemma_cascade_combines(s, rules.drop_last(), tag, classes);
        let e = cascade(empty_style::<V>(), rules.drop_last(), tag, classes);
        if selector_matches(rules.last().selector, tag, classes) {
            let ds = rules.last().declarations@;
            lemma_declarations_combine(merged_style(s, e), ds);
            lemma_declarations_combine(e, ds);
            lemma_merge_associative(s, e, apply_declarations(empty_style::<V>(), ds));
        }
    }
}

/// Cascading the same rules again, onto the style that cascading gave,
/// changes nothing: layout may start each pass from the style it stored.
pub proof fn lemma_cascade_reapplied<V>(
    s: Style<V>,
    rules: Seq<Rule<V>>,
    tag: Option<Seq<char>>,
    classes: Option<Seq<char>>,
)
    ensures
        cascade(cascade(s, rules, tag, classes), rules, tag, classes) == cascade(
            s,
            rules,
            tag,
            classes,
        ),
{
    let d = cascade(empty_style::<V>(), rules, tag, classes);
    lemma_cascade_combines(s, rules, tag, classes);
    lemma_cascade_combines(cascade(s, rules, tag, classes), rules, tag, classes);
    lemma_merge_idempotent(s, d);
}

/// Applying the class rules is applying their combination at once.
proof fn lemma_class_rules_combine<V>(s: Style<V>, rules: Seq<Rule<V>>, names: Seq<Seq<char>>)
    ensures
        class_rules_cascade(s, rules, names) == merged_style(
            s,
            class_rules_cascade(empty_style::<V>(), rules, names),
        ),
    decreases names.len(),
{
    if names.len() == 0 {
        lemma_merge_empty_is_identity(s);
    } else {
        lemma_class_rules_combine(s, rules, names.drop_last());
        let e = class_rules_cascade(empty_style::<V>(), rules, names.drop_last());
        if let Some(k) = find_class_rule_from(rules, names.last(), 0) {
            let ds = rules[k].declarations@;
            lemma_declarations_combine(merged_style(s, e), ds);
            lemma_declarations_combine(e, ds);
            lemma_merge_associative(s, e, apply_declarations(empty_style::<V>(), ds));
        }
    }
}

/// What layout applies to an element is one combined style, whatever it is
/// applied onto.
pub proof fn lemma_element_cascade_combines<V>(
    s: Style<V>,
    rules: Seq<Rule<V>>,
    tag: Option<Seq<char>>,
    classes: Option<Seq<char>>,
)
    ensures
        element_cascade(s, rules, tag, classes) == merged_style(
            s,
            element_cascade(empty_style::<V>(), rules, tag, classes),
        ),
{
    let t = cascade(empty_style::<V>(), rules, tag, None);
    lemma_cascade_combines(s, rules, tag, None);
    if let Some(c) = classes {
        let names = words(c);
        let k = class_rules_cascade(empty_style::<V>(), rules, names);
        lemma_class_rules_combine(merged_style(s, t), rules, names);
        lemma_class_rules_combine(t, rules, names);
        lemma_merge_associative(s, t, k);
    }
}

/// Resolving an element's rules again, onto the style that resolving gave,
/// changes nothing: layout may start each pass from the style it stored.
pub proof fn lemma_element_cascade_reapplied<V>(
    s: Style<V>,
    rules: Seq<Rule<V>>,
    tag: Option<Seq<char>>,
    classes: Option<Seq<char>>,
)
    ensures
        element_cascade(element_cascade(s, rules, tag, classes), rules, tag, classes)
            == element_cascade(s, rules, tag, classes),
{
    let d = element_cascade(empty_style::<V>(), rules, tag, classes);
    lemma_element_cascade_combines(s, rules, tag, classes);
    lemma_element_cascade_combines(element_cascade(s, rules, tag, classes), rules, tag, classes);
    lemma_merge_idempotent(s, d);
}

} // verus!
