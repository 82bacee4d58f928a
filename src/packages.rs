//! Reading a shared-mime-info package document: for each `mime-type`
//! element, the description chosen among its `comment` children by the
//! language preference list.

use vstd::prelude::*;
use crate::environment::opt_view;
use crate::text::{trim, trim_spec, views};
use crate::xml::{AttributeView, NodeView, XmlAttribute, XmlNode, node_views};

verus! {

/// The namespace of the `xml:` attribute prefix.
pub open spec fn xml_namespace() -> Seq<char> {
    "http://www.w3.org/XML/1998/namespace"@
}

/// The value of the first attribute with the given namespace and name.
pub open spec fn attribute_value(
    attrs: Seq<AttributeView>,
    namespace: Option<Seq<char>>,
    name: Seq<char>,
) -> Option<Seq<char>>
    decreases attrs.len(),
{
    if attrs.len() == 0 {
        None
    } else if attrs[0].namespace == namespace && attrs[0].name == name {
        Some(attrs[0].value)
    } else {
        attribute_value(attrs.drop_first(), namespace, name)
    }
}

/// The position of the first occurrence of `x` in `s`.
pub open spec fn position_of(s: Seq<Seq<char>>, x: Seq<char>) -> Option<nat>
    decreases s.len(),
{
    if s.len() == 0 {
        None
    } else if s[0] == x {
        Some(0)
    } else {
        match position_of(s.drop_first(), x) {
            Some(p) => Some(p + 1),
            None => None,
        }
    }
}

/// What has been gathered while reading the comments of one MIME type: the
/// best localized text with the rank of its language, and the latest text
/// without a language.
pub struct CommentChoice {
    pub best: Option<(nat, Seq<char>)>,
    pub fallback: Option<Seq<char>>,
}

/// The choice before any comment is read.
pub open spec fn no_choice() -> CommentChoice {
    CommentChoice { best: None, fallback: None }
}

/// The text of a node, trimmed; empty when it has none.
pub open spec fn trimmed_text(n: NodeView) -> Seq<char> {
    match n.text {
        Some(t) => trim_spec(t),
        None => Seq::empty(),
    }
}

/// The choice after reading node `n`. Only non-empty `comment` elements
/// count. One in a preferred language replaces the best so far only when
/// its language ranks strictly higher; one in another language is ignored;
/// one without a language becomes the fallback.
pub open spec fn comment_step(c: CommentChoice, n: NodeView, langs: Seq<Seq<char>>) -> CommentChoice {
    let txt = trimmed_text(n);
    if n.name != "comment"@ || txt.len() == 0 {
        c
    } else {
        match attribute_value(n.attributes, Some(xml_namespace()), "lang"@) {
            Some(l) => match position_of(langs, l) {
                Some(pos) => match c.best {
                    Some(b) => if b.0 <= pos {
                        c
                    } else {
                        CommentChoice { best: Some((pos, txt)), fallback: c.fallback }
                    },
                    None => CommentChoice { best: Some((pos, txt)), fallback: c.fallback },
                },
                None => c,
            },
            None => CommentChoice { best: c.best, fallback: Some(txt) },
        }
    }
}

/// The choice after reading the children `children` of a node, in order;
/// ids outside the document are passed over.
pub open spec fn choice_over(nodes: Seq<NodeView>, children: Seq<usize>, langs: Seq<Seq<char>>) -> CommentChoice
    decreases children.len(),
{
    if children.len() == 0 {
        no_choice()
    } else {
        let c = choice_over(nodes, children.drop_last(), langs);
        let k = children.last();
        if k < nodes.len() {
            comment_step(c, nodes[k as int], langs)
        } else {
            c
        }
    }
}

/// The description chosen: the best localized one, else the fallback.
pub open spec fn chosen(c: CommentChoice) -> Option<Seq<char>> {
    match c.best {
        Some(b) => Some(b.1),
        None => c.fallback,
    }
}

/// The (type, description) pair that node `k` contributes, if it is a
/// `mime-type` element with a `type` attribute and a description.
pub open spec fn entry_of(nodes: Seq<NodeView>, k: int, langs: Seq<Seq<char>>) -> Option<(Seq<char>, Seq<char>)> {
    let n = nodes[k];
    if n.name != "mime-type"@ {
        None
    } else {
        match attribute_value(n.attributes, None, "type"@) {
            Some(t) => match chosen(choice_over(nodes, n.children, langs)) {
                Some(d) => Some((t, d)),
                None => None,
            },
            None => None,
        }
    }
}

/// The pairs contributed by the first `i` nodes, in document order.
pub open spec fn entries_upto(nodes: Seq<NodeView>, langs: Seq<Seq<char>>, i: nat) -> Seq<(Seq<char>, Seq<char>)>
    decreases i,
{
    if i == 0 {
        Seq::empty()
    } else {
        let prev = entries_upto(nodes, langs, (i - 1) as nat);
        match entry_of(nodes, i - 1, langs) {
            Some(e) => prev.push(e),
            None => prev,
        }
    }
}

/// The (type, description) pairs that a package document declares.
pub open spec fn package_entries(nodes: Seq<NodeView>, langs: Seq<Seq<char>>) -> Seq<(Seq<char>, Seq<char>)> {
    entries_upto(nodes, langs, nodes.len())
}

/// The views of a list of pairs of strings.
pub open spec fn pair_views(v: Seq<(String, String)>) -> Seq<(Seq<char>, Seq<char>)> {
    v.map_values(|p: (String, String)| (p.0@, p.1@))
}

/// The view of an optional string slice.
pub open spec fn opt_str_view(o: Option<&str>) -> Option<Seq<char>> {
    match o {
        Some(s) => Some(s@),
        None => None,
    }
}

fn attribute_lookup(attrs: &Vec<XmlAttribute>, namespace: Option<&str>, name: &str) -> (r: Option<String>)
    ensures
        opt_view(r) == attribute_value(
            attrs@.map_values(|a: XmlAttribute| a@),
            opt_str_view(namespace),
            name@,
        ),
{
    let ghost all = attrs@.map_values(|a: XmlAttribute| a@);
    let ghost ns = opt_str_view(namespace);
    let want_name = name.to_owned();
    let want_ns: Option<String> = match namespace {
        Some(n) => Some(n.to_owned()),
        None => None,
    };
    let mut i: usize = 0;
    assert(all.skip(0) =~= all);
    while i < attrs.len()
        invariant
            i <= attrs.len() == all.len(),
            all == attrs@.map_values(|a: XmlAttribute| a@),
            want_name@ == name@,
            opt_view(want_ns) == ns,
            ns == opt_str_view(namespace),
            attribute_value(all, ns, name@) == attribute_value(all.skip(i as int), ns, name@),
        decreases attrs.len() - i,
    {
        let a = &attrs[i];
        assert(all.skip(i as int)[0] == a@);
        assert(all.skip(i as int).drop_first() =~= all.skip(i + 1));
        let same_ns = match (&a.namespace, &want_ns) {
            (Some(x), Some(y)) => *x == *y,
            (None, None) => true,
            _ => false,
        };
        assert(same_ns <==> a@.namespace == ns);
        if same_ns && a.name == want_name {
            assert(attribute_value(all.skip(i as int), ns, name@) == Some(a@.value));
            let v = a.value.clone();
            return Some(v);
        }
        i = i + 1;
    }
    None
}

fn position_in(langs: &Vec<String>, x: &String) -> (r: Option<usize>)
    ensures
        r is Some <==> position_of(views(langs@), x@) is Some,
        r matches Some(i) ==> position_of(views(langs@), x@) == Some(i as nat),
{
    let ghost all = views(langs@);
    let mut i: usize = 0;
    assert(all.skip(0) =~= all);
    while i < langs.len()
        invariant
            i <= langs.len() == all.len(),
            all == views(langs@),
            match position_of(all, x@) {
                Some(p) => match position_of(all.skip(i as int), x@) {
                    Some(q) => p == q + i,
                    None => false,
                },
                None => position_of(all.skip(i as int), x@) is None,
            },
        decreases langs.len() - i,
    {
        assert(all.skip(i as int)[0] == langs@[i as int]@);
        assert(all.skip(i as int).drop_first() =~= all.skip(i + 1));
        if langs[i] == *x {
            return Some(i);
        }
        i = i + 1;
    }
    None
}

/// Whether the running state of a comment scan stands for `c`.
pub open spec fn state_is(
    score: Option<usize>,
    text: Option<String>,
    fallback: Option<String>,
    c: CommentChoice,
) -> bool {
    &&& match c.best {
        Some(b) => score == Some(b.0 as usize) && opt_view(text) == Some(b.1),
        None => score is None && text is None,
    }
    &&& opt_view(fallback) == c.fallback
    &&& (c.best matches Some(b) ==> b.0 <= usize::MAX)
}

/// The description chosen among the `comment` children of a node: the one
/// in the most preferred language of `languages`, else the last one without
/// a language.
pub fn choose_description(nodes: &Vec<XmlNode>, children: &Vec<usize>, languages: &Vec<String>) -> (r:
    Option<String>)
    ensures
        opt_view(r) == chosen(choice_over(node_views(nodes@), children@, views(languages@))),
{
    let ghost nv = node_views(nodes@);
    let ghost lv = views(languages@);
    let mut best_score: Option<usize> = None;
    let mut best_text: Option<String> = None;
    let mut fallback: Option<String> = None;
    let comment = String::from_str("comment");
    let mut i: usize = 0;
    assert(children@.take(0) =~= Seq::<usize>::empty());
    while i < children.len()
        invariant
            i <= children.len(),
            nv == node_views(nodes@),
            lv == views(languages@),
            comment@ == "comment"@,
            state_is(best_score, best_text, fallback, choice_over(nv, children@.take(i as int), lv)),
        decreases children.len() - i,
    {
        assert(children@.take(i + 1).drop_last() =~= children@.take(i as int));
        let ghost before = choice_over(nv, children@.take(i as int), lv);
        let k = children[i];
        assert(choice_over(nv, children@.take(i + 1), lv) == if (k as int) < nv.len() {
            comment_step(before, nv[k as int], lv)
        } else {
            before
        });
        if k < nodes.len() {
            let n = &nodes[k];
            assert(nv[k as int] == n@);
            if n.name == comment {
                let txt = match &n.text {
                    Some(t) => trim(t.as_str()),
                    None => String::new(),
                };
                assert(txt@ == trimmed_text(n@));
                if txt.as_str().unicode_len() > 0 {
                    let lang = attribute_lookup(&n.attributes, Some("http://www.w3.org/XML/1998/namespace"), "lang");
                    assert(opt_view(lang) == attribute_value(n@.attributes, Some(xml_namespace()), "lang"@));
                    match lang {
                        Some(l) => match position_in(languages, &l) {
                            Some(pos) => {
                                assert(position_of(lv, l@) == Some(pos as nat));
                                let keep = match best_score {
                                    Some(e) => e <= pos,
                                    None => false,
                                };
                                if !keep {
                                    best_score = Some(pos);
                                    best_text = Some(txt);
                                }
                            },
                            None => {},
                        },
                        None => {
                            fallback = Some(txt);
                        },
                    }
                }
            }
        }
        i = i + 1;
    }
    assert(children@.take(children.len() as int) =~= children@);
    match best_text {
        Some(t) => Some(t),
        None => fallback,
    }
}

/// The (type, description) pairs that a parsed package document declares,
/// in document order: one for each `mime-type` element with a `type`
/// attribute and a description.
pub fn package_descriptions(nodes: &Vec<XmlNode>, languages: &Vec<String>) -> (r: Vec<(String, String)>)
    ensures
        pair_views(r@) == package_entries(node_views(nodes@), views(languages@)),
{
    let ghost nv = node_views(nodes@);
    let ghost lv = views(languages@);
    let mime_type = String::from_str("mime-type");
    let mut out: Vec<(String, String)> = Vec::new();
    let mut k: usize = 0;
    assert(pair_views(out@) =~= Seq::<(Seq<char>, Seq<char>)>::empty());
    while k < nodes.len()
        invariant
            k <= nodes.len(),
            nv == node_views(nodes@),
            lv == views(languages@),
            mime_type@ == "mime-type"@,
            pair_views(out@) == entries_upto(nv, lv, k as nat),
        decreases nodes.len() - k,
    {
        let n = &nodes[k];
        assert(nv[k as int] == n@);
        let ghost before = pair_views(out@);
        if n.name == mime_type {
            match attribute_lookup(&n.attributes, None, "type") {
                Some(t) => match choose_description(nodes, &n.children, languages) {
                    Some(d) => {
                        out.push((t, d));
                        assert(pair_views(out@) =~= before.push(entry_of(nv, k as int, lv)->0));
                    },
                    None => {},
                },
                None => {},
            }
        }
        k = k + 1;
    }
    out
}

/// The rank, in `langs`, of the language of a non-empty `comment` element,
/// when it has a language that `langs` lists.
pub open spec fn comment_rank(n: NodeView, langs: Seq<Seq<char>>) -> Option<nat> {
    if n.name == "comment"@ && trimmed_text(n).len() > 0 {
        match attribute_value(n.attributes, Some(xml_namespace()), "lang"@) {
            Some(l) => position_of(langs, l),
            None => None,
        }
    } else {
        None
    }
}

/// Whether `n` is a non-empty `comment` element without a language.
pub open spec fn is_unlocalized_comment(n: NodeView) -> bool {
    n.name == "comment"@ && trimmed_text(n).len() > 0 && attribute_value(
        n.attributes,
        Some(xml_namespace()),
        "lang"@,
    ) is None
}

/// The node that child `i` names, when it lies in the document.
pub open spec fn child_node(nodes: Seq<NodeView>, children: Seq<usize>, i: int) -> Option<NodeView> {
    if children[i] < nodes.len() {
        Some(nodes[children[i] as int])
    } else {
        None
    }
}

proof fn lemma_best_prefix(nodes: Seq<NodeView>, children: Seq<usize>, langs: Seq<Seq<char>>, j: int, p: nat, m: int)
    requires
        0 <= j < children.len(),
        0 <= m <= children.len(),
        child_node(nodes, children, j) matches Some(n) && comment_rank(n, langs) == Some(p),
        forall|i: int|
            0 <= i < children.len() && i != j ==> (#[trigger] child_node(nodes, children, i) matches Some(
                n,
            ) ==> (comment_rank(n, langs) matches Some(q) ==> (q > p || (q == p && i > j)))),
    ensures
        m <= j ==> (choice_over(nodes, children.take(m), langs).best matches Some(b) ==> b.0 > p),
        m > j ==> choice_over(nodes, children.take(m), langs).best == Some(
            (p, trimmed_text(nodes[children[j] as int])),
        ),
    decreases m,
{
    if m > 0 {
        lemma_best_prefix(nodes, children, langs, j, p, m - 1);
        assert(children.take(m).drop_last() =~= children.take(m - 1));
        assert(children.take(m).last() == children[m - 1]);
        let _ = child_node(nodes, children, m - 1);
    }
}

/// Among the comments of a MIME type, the one whose language ranks highest
/// in the preference list is the description (the first of them on a tie).
pub proof fn lemma_preferred_language_wins(
    nodes: Seq<NodeView>,
    children: Seq<usize>,
    langs: Seq<Seq<char>>,
    j: int,
    p: nat,
)
    requires
        0 <= j < children.len(),
        child_node(nodes, children, j) matches Some(n) && comment_rank(n, langs) == Some(p),
        forall|i: int|
            0 <= i < children.len() && i != j ==> (#[trigger] child_node(nodes, children, i) matches Some(
                n,
            ) ==> (comment_rank(n, langs) matches Some(q) ==> (q > p || (q == p && i > j)))),
    ensures
        chosen(choice_over(nodes, children, langs)) == Some(trimmed_text(nodes[children[j] as int])),
{
    lemma_best_prefix(nodes, children, langs, j, p, children.len() as int);
    assert(children.take(children.len() as int) =~= children);
}

proof fn lemma_fallback_prefix(nodes: Seq<NodeView>, children: Seq<usize>, langs: Seq<Seq<char>>, j: int, m: int)
    requires
        0 <= j < children.len(),
        0 <= m <= children.len(),
        child_node(nodes, children, j) matches Some(n) && is_unlocalized_comment(n),
        forall|i: int|
            0 <= i < children.len() ==> (#[trigger] child_node(nodes, children, i) matches Some(n) ==> (
            comment_rank(n, langs) is None && (i > j ==> !is_unlocalized_comment(n)))),
    ensures
        choice_over(nodes, children.take(m), langs).best is None,
        m > j ==> choice_over(nodes, children.take(m), langs).fallback == Some(
            trimmed_text(nodes[children[j] as int]),
        ),
    decreases m,
{
    if m > 0 {
        lemma_fallback_prefix(nodes, children, langs, j, m - 1);
        assert(children.take(m).drop_last() =~= children.take(m - 1));
        assert(children.take(m).last() == children[m - 1]);
        let _ = child_node(nodes, children, m - 1);
    }
}

/// When no comment of a MIME type is in a preferred language, the last
/// comment without a language is the description.
pub proof fn lemma_unlocalized_fallback(nodes: Seq<NodeView>, children: Seq<usize>, langs: Seq<Seq<char>>, j: int)
    requires
        0 <= j < children.len(),
        child_node(nodes, children, j) matches Some(n) && is_unlocalized_comment(n),
        forall|i: int|
            0 <= i < children.len() ==> (#[trigger] child_node(nodes, children, i) matches Some(n) ==> (
            comment_rank(n, langs) is None && (i > j ==> !is_unlocalized_comment(n)))),
    ensures
        chosen(choice_over(nodes, children, langs)) == Some(trimmed_text(nodes[children[j] as int])),
{
    lemma_fallback_prefix(nodes, children, langs, j, children.len() as int);
    assert(children.take(children.len() as int) =~= children);
}

proof fn lemma_choice_nonempty(nodes: Seq<NodeView>, children: Seq<usize>, langs: Seq<Seq<char>>)
    ensures
        choice_over(nodes, children, langs).best matches Some(b) ==> b.1.len() > 0,
        choice_over(nodes, children, langs).fallback matches Some(f) ==> f.len() > 0,
    decreases children.len(),
{
    if children.len() > 0 {
        lemma_choice_nonempty(nodes, children.drop_last(), langs);
    }
}

pub(crate) proof fn lemma_entries_nonempty(nodes: Seq<NodeView>, langs: Seq<Seq<char>>, i: nat)
    requires
        i <= nodes.len(),
    ensures
        forall|j: int| 0 <= j < entries_upto(nodes, langs, i).len() ==> (#[trigger] entries_upto(nodes, langs, i)[j]).1.len() > 0,
    decreases i,
{
    if i > 0 {
        lemma_entries_nonempty(nodes, langs, (i - 1) as nat);
        let k = i - 1;
        let prev = entries_upto(nodes, langs, (i - 1) as nat);
        lemma_choice_nonempty(nodes, nodes[k].children, langs);
        match entry_of(nodes, k, langs) {
            Some(e) => {
                assert(e.1.len() > 0);
                assert(entries_upto(nodes, langs, i) == prev.push(e));
                assert(forall|j: int| 0 <= j < prev.len() ==> prev.push(e)[j] == prev[j]);
            },
            None => {},
        }
    }
}

} // verus!
