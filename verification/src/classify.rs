//! Classification of messages: namespace splitting of labels and grouping
//! by namespace prefix.
//!
//! A label with no `::` separator names an inherent method; a label with
//! exactly one separator belongs to the named group; more than one
//! separator is a fatal input error.

use vstd::prelude::*;

use crate::errors::GenError;
use crate::metadata::Message;
use crate::strutil::string_matches;

verus! {

/// A `::` separator starts at position `i` of `s`.
pub open spec fn sep_at(s: Seq<char>, i: int) -> bool {
    0 <= i && i + 2 <= s.len() && s[i] == ':' && s[i + 1] == ':'
}

/// The position of the first `::` separator, or -1 when there is none.
pub open spec fn first_sep(s: Seq<char>) -> int
    decreases s.len(),
{
    if s.len() < 2 {
        -1
    } else if s[0] == ':' && s[1] == ':' {
        0
    } else {
        let r = first_sep(s.skip(1));
        if r < 0 {
            -1
        } else {
            r + 1
        }
    }
}

/// The parts of `s` around its `::` separators, leftmost first,
/// non-overlapping.
pub open spec fn split_parts(s: Seq<char>) -> Seq<Seq<char>>
    decreases s.len(),
{
    let i = first_sep(s);
    if i < 0 || i + 2 > s.len() {
        seq![s]
    } else {
        seq![s.take(i)] + split_parts(s.skip(i + 2))
    }
}

proof fn lemma_split_parts_nonempty(s: Seq<char>)
    ensures
        split_parts(s).len() >= 1,
    decreases s.len(),
{
    let i = first_sep(s);
    if i < 0 || i + 2 > s.len() {
    } else {
        lemma_split_parts_nonempty(s.skip(i + 2));
    }
}

proof fn lemma_first_sep_found(s: Seq<char>, i: int)
    requires
        sep_at(s, i),
        forall|j: int| 0 <= j < i ==> !sep_at(s, j),
    ensures
        first_sep(s) == i,
    decreases i,
{
    if i == 0 {
    } else {
        assert(!sep_at(s, 0));
        assert(sep_at(s.skip(1), i - 1)) by {
            assert(s.skip(1)[i - 1] == s[i]);
            assert(s.skip(1)[i] == s[i + 1]);
        }
        assert forall|j: int| 0 <= j < i - 1 implies !sep_at(s.skip(1), j) by {
            assert(!sep_at(s, j + 1));
            assert(s.skip(1)[j] == s[j + 1]);
            if j + 2 <= s.skip(1).len() {
                assert(s.skip(1)[j + 1] == s[j + 2]);
            }
        }
        lemma_first_sep_found(s.skip(1), i - 1);
    }
}

proof fn lemma_first_sep_none(s: Seq<char>)
    requires
        forall|j: int| !sep_at(s, j),
    ensures
        first_sep(s) == -1,
    decreases s.len(),
{
    if s.len() < 2 {
    } else {
        assert(!sep_at(s, 0));
        assert forall|j: int| !sep_at(s.skip(1), j) by {
            if 0 <= j && j + 2 <= s.skip(1).len() {
                assert(s.skip(1)[j] == s[j + 1]);
                assert(s.skip(1)[j + 1] == s[j + 2]);
                assert(!sep_at(s, j + 1));
            }
        }
        lemma_first_sep_none(s.skip(1));
    }
}

/// Finds the first `::` separator of `s`, scanning left to right.
fn find_sep(s: &str) -> (r: Option<usize>)
    ensures
        match r {
            Some(i) => sep_at(s@, i as int) && (forall|j: int| 0 <= j < i ==> !sep_at(s@, j))
                && first_sep(s@) == i,
            None => (forall|j: int| !sep_at(s@, j)) && first_sep(s@) == -1,
        },
{
    let n = s.unicode_len();
    let mut i: usize = 0;
    while n > 0 && i < n - 1
        invariant
            i <= n,
            n == s@.len(),
            forall|j: int| 0 <= j < i ==> !sep_at(s@, j),
        decreases n - i,
    {
        if s.get_char(i) == ':' && s.get_char(i + 1) == ':' {
            proof {
                lemma_first_sep_found(s@, i as int);
            }
            return Some(i);
        }
        i = i + 1;
    }
    proof {
        assert forall|j: int| !sep_at(s@, j) by {
            if 0 <= j && j + 2 <= s@.len() {
                assert(j < i);
            }
        }
        lemma_first_sep_none(s@);
    }
    None
}

/// The namespace prefix of a label with exactly one separator; `None` for a
/// plain label.  Meaningless for an invalid label with more separators.
pub open spec fn spec_trait_prefix(label: Seq<char>) -> Option<Seq<char>> {
    if split_parts(label).len() == 2 {
        Some(split_parts(label)[0])
    } else {
        None
    }
}

/// A label is valid when it has at most one `::` separator.
pub open spec fn valid_label(label: Seq<char>) -> bool {
    split_parts(label).len() <= 2
}

/// The namespace prefix of the label: `Ok(None)` for a plain label,
/// `Ok(Some(prefix))` for a single separator, and a fatal error for nested
/// namespaces.
pub fn label_trait_name(s: &str) -> (r: Result<Option<String>, GenError>)
    ensures
        match r {
            Ok(None) => split_parts(s@).len() == 1,
            Ok(Some(p)) => split_parts(s@).len() == 2 && p@ == split_parts(s@)[0],
            Err(e) => split_parts(s@).len() > 2 && e == GenError::NestedNamespace,
        },
{
    let n = s.unicode_len();
    match find_sep(s) {
        None => {
            proof {
                assert(split_parts(s@) =~= seq![s@]);
            }
            Ok(None)
        },
        Some(i) => {
            let rest = s.substring_char(i + 2, n);
            proof {
                assert(rest@ =~= s@.skip(i + 2));
            }
            match find_sep(rest) {
                None => {
                    proof {
                        assert(split_parts(rest@) =~= seq![rest@]);
                        assert(split_parts(s@) =~= seq![s@.take(i as int)] + seq![rest@]);
                    }
                    let p = s.substring_char(0, i);
                    proof {
                        assert(p@ =~= s@.take(i as int));
                    }
                    Ok(Some(String::from_str(p)))
                },
                Some(_) => {
                    proof {
                        lemma_split_parts_nonempty(rest@.skip(first_sep(rest@) + 2));
                        assert(split_parts(rest@).len() >= 2);
                        assert(split_parts(s@).len() >= 3);
                    }
                    Err(GenError::NestedNamespace)
                },
            }
        },
    }
}

/// The method name of a label: the part after its last separator, or the
/// whole label when it has none.
pub fn label_method_name(s: &str) -> (r: String)
    ensures
        r@ == split_parts(s@).last(),
    decreases s@.len(),
{
    let n = s.unicode_len();
    match find_sep(s) {
        None => {
            proof {
                assert(split_parts(s@) =~= seq![s@]);
            }
            String::from_str(s)
        },
        Some(i) => {
            let rest = s.substring_char(i + 2, n);
            proof {
                assert(rest@ =~= s@.skip(i + 2));
                lemma_split_parts_nonempty(rest@);
            }
            let r = label_method_name(rest);
            proof {
                assert(split_parts(s@) =~= seq![s@.take(i as int)] + split_parts(rest@));
                assert(split_parts(s@).last() == split_parts(rest@).last());
            }
            r
        },
    }
}

/// Namespace classification of messages by their label.
pub trait MessageSpecExtensions {
    spec fn spec_label(&self) -> Seq<char>;

    /// The namespace prefix of the message, if it has exactly one; a label
    /// with nested namespaces is a fatal input error.
    fn trait_name(&self) -> (r: Result<Option<String>, GenError>)
        ensures
            match r {
                Ok(None) => split_parts(self.spec_label()).len() == 1,
                Ok(Some(p)) => split_parts(self.spec_label()).len() == 2 && p@ == split_parts(
                    self.spec_label(),
                )[0],
                Err(e) => split_parts(self.spec_label()).len() > 2 && e
                    == GenError::NestedNamespace,
            },
    ;

    /// The method name: what follows the last separator of the label.
    fn method_name(&self) -> (r: String)
        ensures
            r@ == split_parts(self.spec_label()).last(),
    ;
}

impl MessageSpecExtensions for Message {
    open spec fn spec_label(&self) -> Seq<char> {
        self.label@
    }

    fn trait_name(&self) -> (r: Result<Option<String>, GenError>) {
        label_trait_name(self.label.as_str())
    }

    fn method_name(&self) -> (r: String) {
        label_method_name(self.label.as_str())
    }
}

/// One namespace group: the shared prefix and its messages, in declaration
/// order.
pub struct MessageGroup<'a> {
    pub name: String,
    pub messages: Vec<&'a Message>,
}

/// A message with a plain, separator-free label.
pub open spec fn is_inherent(m: Message) -> bool {
    split_parts(m.label@).len() == 1
}

/// The distinct namespace prefixes of the messages, in order of first
/// appearance.
pub open spec fn prefix_list(ms: Seq<Message>) -> Seq<Seq<char>>
    decreases ms.len(),
{
    if ms.len() == 0 {
        Seq::empty()
    } else {
        let p = prefix_list(ms.drop_last());
        match spec_trait_prefix(ms.last().label@) {
            Option::None => p,
            Option::Some(n) => if p.contains(n) {
                p
            } else {
                p.push(n)
            },
        }
    }
}

/// The view of an optional prefix.
pub open spec fn opt_prefix_view(o: Option<String>) -> Option<Seq<char>> {
    match o {
        Option::Some(p) => Option::Some(p@),
        Option::None => Option::None,
    }
}

/// The messages with a plain, separator-free label, in declaration order.
pub open spec fn inherents_of(ms: Seq<Message>) -> Seq<Message>
    decreases ms.len(),
{
    if ms.len() == 0 {
        Seq::empty()
    } else {
        let p = inherents_of(ms.drop_last());
        if is_inherent(ms.last()) {
            p.push(ms.last())
        } else {
            p
        }
    }
}

/// The messages whose namespace prefix is `name`, in declaration order.
pub open spec fn in_group(ms: Seq<Message>, name: Seq<char>) -> Seq<Message>
    decreases ms.len(),
{
    if ms.len() == 0 {
        Seq::empty()
    } else {
        let p = in_group(ms.drop_last(), name);
        if spec_trait_prefix(ms.last().label@) == Option::Some(name) {
            p.push(ms.last())
        } else {
            p
        }
    }
}

/// Partitions messages into the inherent (ungrouped) list and one group per
/// namespace prefix.  Every message lands in exactly one place, orders are
/// preserved, group names appear in order of first appearance, and a label
/// with nested namespaces is a fatal error.
pub fn group_messages<'a>(messages: &'a Vec<Message>) -> (r: Result<
    (Vec<&'a Message>, Vec<MessageGroup<'a>>),
    GenError,
>)
    ensures
        match r {
            Ok(parts) => {
                &&& (forall|j: int|
                    0 <= j < messages@.len() ==> valid_label(#[trigger] messages@[j].label@))
                &&& parts.0@.map_values(|m: &Message| *m) == inherents_of(messages@)
                &&& parts.1@.map_values(|g: MessageGroup<'a>| g.name@) == prefix_list(messages@)
                &&& forall|k: int|
                    0 <= k < parts.1@.len() ==> (#[trigger] parts.1@[k]).messages@.map_values(
                        |m: &Message| *m,
                    ) == in_group(messages@, parts.1@[k].name@)
            },
            Err(e) => {
                &&& exists|j: int|
                    0 <= j < messages@.len() && !valid_label(#[trigger] messages@[j].label@)
                &&& e == GenError::NestedNamespace
            },
        },
{
    let mut inherent: Vec<&'a Message> = Vec::new();
    let mut prefixes: Vec<Option<String>> = Vec::new();
    let mut names: Vec<String> = Vec::new();
    let mut i: usize = 0;
    while i < messages.len()
        invariant
            i <= messages.len(),
            prefixes@.len() == i,
            forall|j: int| 0 <= j < i ==> valid_label(#[trigger] messages@[j].label@),
            forall|j: int|
                0 <= j < i ==> opt_prefix_view(#[trigger] prefixes@[j]) == spec_trait_prefix(
                    messages@[j].label@,
                ),
            inherent@.map_values(|m: &Message| *m) == inherents_of(messages@.take(i as int)),
            names@.map_values(|n: String| n@) == prefix_list(messages@.take(i as int)),
        decreases messages.len() - i,
    {
        let m = &messages[i];
        proof {
            assert(messages@.take(i + 1 as int).drop_last() =~= messages@.take(i as int));
            assert(messages@.take(i + 1 as int).last() == messages@[i as int]);
        }
        match m.trait_name() {
            Err(e) => {
                return Err(e);
            },
            Ok(None) => {
                inherent.push(m);
                prefixes.push(None);
                proof {
                    assert(is_inherent(messages@[i as int]));
                    assert(spec_trait_prefix(messages@[i as int].label@) is None);
                    assert(inherents_of(messages@.take(i + 1 as int)) == inherents_of(
                        messages@.take(i as int),
                    ).push(messages@[i as int]));
                    assert(inherent@.map_values(|mm: &Message| *mm) =~= inherents_of(
                        messages@.take(i as int),
                    ).push(messages@[i as int]));
                    assert(prefix_list(messages@.take(i + 1 as int)) == prefix_list(
                        messages@.take(i as int),
                    ));
                }
            },
            Ok(Some(p)) => {
                let ghost old_names = names@.map_values(|n: String| n@);
                let mut found = false;
                let mut k: usize = 0;
                while k < names.len()
                    invariant
                        k <= names.len(),
                        old_names == names@.map_values(|n: String| n@),
                        found == exists|j: int| 0 <= j < k && old_names[j] == p@,
                    decreases names.len() - k,
                {
                    if string_matches(&names[k], p.as_str()) {
                        found = true;
                        proof {
                            assert(old_names[k as int] == p@);
                        }
                    }
                    k = k + 1;
                }
                proof {
                    if found {
                        assert(old_names.contains(p@));
                    } else {
                        assert(forall|j: int|
                            0 <= j < old_names.len() ==> old_names[j] != p@);
                        assert(!old_names.contains(p@));
                    }
                }
                if !found {
                    names.push(p.clone());
                    proof {
                        assert(names@.map_values(|n: String| n@) =~= old_names.push(p@));
                    }
                }
                prefixes.push(Some(p));
                proof {
                    assert(!is_inherent(messages@[i as int]));
                    assert(inherents_of(messages@.take(i + 1 as int)) == inherents_of(
                        messages@.take(i as int),
                    ));
                    assert(names@.map_values(|n: String| n@) == prefix_list(
                        messages@.take(i + 1 as int),
                    ));
                }
            },
        }
        i = i + 1;
    }
    proof {
        assert(messages@.take(messages@.len() as int) =~= messages@);
    }
    // One group per prefix, each holding the matching messages in order.
    let mut groups: Vec<MessageGroup<'a>> = Vec::new();
    let mut k: usize = 0;
    while k < names.len()
        invariant
            k <= names.len(),
            prefixes@.len() == messages@.len(),
            forall|j: int|
                0 <= j < messages@.len() ==> opt_prefix_view(#[trigger] prefixes@[j])
                    == spec_trait_prefix(messages@[j].label@),
            groups@.len() == k,
            forall|x: int|
                0 <= x < k ==> (#[trigger] groups@[x]).name@ == names@.map_values(
                    |n: String| n@,
                )[x],
            forall|x: int|
                0 <= x < k ==> (#[trigger] groups@[x]).messages@.map_values(|m: &Message| *m)
                    == in_group(messages@, groups@[x].name@),
        decreases names.len() - k,
    {
        let name = names[k].clone();
        let mut members: Vec<&'a Message> = Vec::new();
        let mut j: usize = 0;
        while j < messages.len()
            invariant
                j <= messages.len(),
                prefixes@.len() == messages@.len(),
                forall|x: int|
                    0 <= x < messages@.len() ==> opt_prefix_view(#[trigger] prefixes@[x])
                        == spec_trait_prefix(messages@[x].label@),
                members@.map_values(|m: &Message| *m) == in_group(
                    messages@.take(j as int),
                    name@,
                ),
            decreases messages.len() - j,
        {
            proof {
                assert(messages@.take(j + 1 as int).drop_last() =~= messages@.take(j as int));
                assert(messages@.take(j + 1 as int).last() == messages@[j as int]);
            }
            let keep = match &prefixes[j] {
                Some(p) => string_matches(p, name.as_str()),
                None => false,
            };
            proof {
                assert(keep == (spec_trait_prefix(messages@[j as int].label@)
                    == Option::Some(name@)));
            }
            if keep {
                members.push(&messages[j]);
                proof {
                    assert(members@.map_values(|mm: &Message| *mm) =~= in_group(
                        messages@.take(j as int),
                        name@,
                    ).push(messages@[j as int]));
                }
            }
            j = j + 1;
        }
        proof {
            assert(messages@.take(messages@.len() as int) =~= messages@);
        }
        groups.push(MessageGroup { name, messages: members });
        k = k + 1;
    }
    proof {
        assert(groups@.map_values(|g: MessageGroup<'a>| g.name@) =~= names@.map_values(
            |n: String| n@,
        ));
    }
    Ok((inherent, groups))
}


proof fn lemma_in_group_member_prefix(ms: Seq<Message>, name: Seq<char>, x: Message)
    requires
        in_group(ms, name).contains(x),
    ensures
        spec_trait_prefix(x.label@) == Option::Some(name),
    decreases ms.len(),
{
    if ms.len() > 0 {
        let p = in_group(ms.drop_last(), name);
        if spec_trait_prefix(ms.last().label@) == Option::Some(name) {
            let idx = choose|idx: int|
                0 <= idx < in_group(ms, name).len() && in_group(ms, name)[idx] == x;
            if idx < p.len() {
                assert(p.contains(x)) by {
                    assert(p[idx] == x);
                }
                lemma_in_group_member_prefix(ms.drop_last(), name, x);
            } else {
                assert(x == ms.last());
            }
        } else {
            lemma_in_group_member_prefix(ms.drop_last(), name, x);
        }
    }
}

proof fn lemma_in_group_contains_at(ms: Seq<Message>, name: Seq<char>, j: int)
    requires
        0 <= j < ms.len(),
        spec_trait_prefix(ms[j].label@) == Option::Some(name),
    ensures
        in_group(ms, name).contains(ms[j]),
    decreases ms.len(),
{
    let p = in_group(ms.drop_last(), name);
    if j == ms.len() - 1 {
        assert(in_group(ms, name)[p.len() as int] == ms[j]);
    } else {
        assert(ms.drop_last()[j] == ms[j]);
        lemma_in_group_contains_at(ms.drop_last(), name, j);
        let idx = choose|idx: int| 0 <= idx < p.len() && p[idx] == ms[j];
        if spec_trait_prefix(ms.last().label@) == Option::Some(name) {
            assert(in_group(ms, name)[idx] == ms[j]);
        } else {
            assert(in_group(ms, name)[idx] == ms[j]);
        }
    }
}

proof fn lemma_inherent_member(ms: Seq<Message>, x: Message)
    requires
        inherents_of(ms).contains(x),
    ensures
        is_inherent(x),
    decreases ms.len(),
{
    if ms.len() > 0 {
        let p = inherents_of(ms.drop_last());
        if is_inherent(ms.last()) {
            let idx = choose|idx: int|
                0 <= idx < inherents_of(ms).len() && inherents_of(ms)[idx] == x;
            if idx < p.len() {
                assert(p.contains(x)) by {
                    assert(p[idx] == x);
                }
                lemma_inherent_member(ms.drop_last(), x);
            } else {
                assert(x == ms.last());
            }
        } else {
            lemma_inherent_member(ms.drop_last(), x);
        }
    }
}

proof fn lemma_inherents_contains_at(ms: Seq<Message>, j: int)
    requires
        0 <= j < ms.len(),
        is_inherent(ms[j]),
    ensures
        inherents_of(ms).contains(ms[j]),
    decreases ms.len(),
{
    let p = inherents_of(ms.drop_last());
    if j == ms.len() - 1 {
        assert(inherents_of(ms)[p.len() as int] == ms[j]);
    } else {
        assert(ms.drop_last()[j] == ms[j]);
        lemma_inherents_contains_at(ms.drop_last(), j);
        let idx = choose|idx: int| 0 <= idx < p.len() && p[idx] == ms[j];
        assert(inherents_of(ms)[idx] == ms[j]);
    }
}

proof fn lemma_prefix_list_has(ms: Seq<Message>, j: int, name: Seq<char>)
    requires
        0 <= j < ms.len(),
        spec_trait_prefix(ms[j].label@) == Option::Some(name),
    ensures
        prefix_list(ms).contains(name),
    decreases ms.len(),
{
    let p = prefix_list(ms.drop_last());
    if j == ms.len() - 1 {
        if p.contains(name) {
        } else {
            assert(prefix_list(ms)[p.len() as int] == name);
        }
    } else {
        assert(ms.drop_last()[j] == ms[j]);
        lemma_prefix_list_has(ms.drop_last(), j, name);
        let idx = choose|idx: int| 0 <= idx < p.len() && p[idx] == name;
        match spec_trait_prefix(ms.last().label@) {
            Option::None => {
                assert(prefix_list(ms)[idx] == name);
            },
            Option::Some(n) => {
                if p.contains(n) {
                    assert(prefix_list(ms)[idx] == name);
                } else {
                    assert(prefix_list(ms)[idx] == name);
                }
            },
        }
    }
}

/// Law: under valid labels, every message stands in exactly one part of
/// the partition.  A plain-labelled message stands among the inherent
/// messages and in no namespace group; a namespaced message stands in
/// exactly the group of its prefix, which the prefix list carries, and not
/// among the inherent messages; a label with two or more separators is
/// rejected outright by the classifier.
pub proof fn lemma_partition(ms: Seq<Message>, j: int)
    requires
        0 <= j < ms.len(),
        valid_label(ms[j].label@),
    ensures
        is_inherent(ms[j]) ==> inherents_of(ms).contains(ms[j]),
        is_inherent(ms[j]) ==> forall|name: Seq<char>| !(#[trigger] in_group(ms, name)).contains(
            ms[j],
        ),
        !is_inherent(ms[j]) ==> prefix_list(ms).contains(
            spec_trait_prefix(ms[j].label@)->Some_0,
        ),
        !is_inherent(ms[j]) ==> in_group(ms, spec_trait_prefix(ms[j].label@)->Some_0).contains(
            ms[j],
        ),
        !is_inherent(ms[j]) ==> !inherents_of(ms).contains(ms[j]),
        !is_inherent(ms[j]) ==> forall|q: Seq<char>|
            q != spec_trait_prefix(ms[j].label@)->Some_0 ==> !(#[trigger] in_group(
                ms,
                q,
            )).contains(ms[j]),
{
    lemma_split_parts_nonempty(ms[j].label@);
    if is_inherent(ms[j]) {
        lemma_inherents_contains_at(ms, j);
        assert forall|name: Seq<char>| !(#[trigger] in_group(ms, name)).contains(ms[j]) by {
            if in_group(ms, name).contains(ms[j]) {
                lemma_in_group_member_prefix(ms, name, ms[j]);
            }
        }
    } else {
        let p = spec_trait_prefix(ms[j].label@)->Some_0;
        assert(split_parts(ms[j].label@).len() == 2);
        lemma_prefix_list_has(ms, j, p);
        lemma_in_group_contains_at(ms, p, j);
        if inherents_of(ms).contains(ms[j]) {
            lemma_inherent_member(ms, ms[j]);
        }
        assert forall|q: Seq<char>| q != p implies !(#[trigger] in_group(ms, q)).contains(
            ms[j],
        ) by {
            if in_group(ms, q).contains(ms[j]) {
                lemma_in_group_member_prefix(ms, q, ms[j]);
            }
        }
    }
}

} // verus!
