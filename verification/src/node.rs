use crate::text::{owned, str_eq};
use vstd::prelude::*;

verus! {

/// Content of a binary protocol node: child nodes, raw bytes or text.
#[derive(Debug)]
pub enum NodeContent {
    Nodes(Vec<BinaryNode>),
    Bytes(Vec<u8>),
    Text(String),
}

/// A node of the WhatsApp binary stanza format: a tag, string attributes and
/// optional content. Attributes keep insertion order; setting an attribute
/// that is already present replaces its value in place.
#[derive(Debug)]
pub struct BinaryNode {
    pub tag: String,
    pub attrs: Vec<(String, String)>,
    pub content: Option<NodeContent>,
}

/// Value of the first attribute named `key`.
pub open spec fn attr_of(attrs: Seq<(String, String)>, key: Seq<char>) -> Option<Seq<char>>
    decreases attrs.len(),
{
    if attrs.len() == 0 {
        None
    } else if attrs[0].0@ == key {
        Some(attrs[0].1@)
    } else {
        attr_of(attrs.drop_first(), key)
    }
}

/// The children of `nodes` whose tag is `tag`, in order.
pub open spec fn with_tag(nodes: Seq<BinaryNode>, tag: Seq<char>) -> Seq<BinaryNode>
    decreases nodes.len(),
{
    if nodes.len() == 0 {
        Seq::empty()
    } else if nodes.last().tag@ == tag {
        with_tag(nodes.drop_last(), tag).push(nodes.last())
    } else {
        with_tag(nodes.drop_last(), tag)
    }
}

impl BinaryNode {
    /// Attribute `key` of this node, if any.
    pub open spec fn attr(&self, key: Seq<char>) -> Option<Seq<char>> {
        attr_of(self.attrs@, key)
    }

    /// Child nodes (empty unless the content is a node list).
    pub open spec fn children(&self) -> Seq<BinaryNode> {
        match self.content {
            Some(NodeContent::Nodes(v)) => v@,
            _ => Seq::empty(),
        }
    }

    /// Child nodes with the given tag, in order.
    pub open spec fn children_tagged(&self, tag: Seq<char>) -> Seq<BinaryNode> {
        with_tag(self.children(), tag)
    }

    /// Byte content, if the content is bytes.
    pub open spec fn bytes_content(&self) -> Option<Seq<u8>> {
        match self.content {
            Some(NodeContent::Bytes(b)) => Some(b@),
            _ => None,
        }
    }

    /// A node with the given tag, no attributes and no content.
    pub fn new(tag: &str) -> (n: Self)
        ensures
            n.tag@ == tag@,
            n.attrs@.len() == 0,
            n.content.is_none(),
    {
        BinaryNode { tag: owned(tag), attrs: Vec::new(), content: None }
    }

    /// This node with attribute `key` set to `value`.
    pub fn with_attr(self, key: &str, value: &str) -> (n: Self)
        ensures
            n.tag == self.tag,
            n.content == self.content,
            n.attr(key@) == Some(value@),
            forall|k: Seq<char>| k != key@ ==> n.attr(k) == self.attr(k),
    {
        let mut node = self;
        node.set_attr(key, value);
        node
    }

    /// Sets attribute `key` to `value`, replacing an earlier value.
    pub fn set_attr(&mut self, key: &str, value: &str)
        ensures
            final(self).tag == old(self).tag,
            final(self).content == old(self).content,
            final(self).attr(key@) == Some(value@),
            forall|k: Seq<char>| k != key@ ==> final(self).attr(k) == old(self).attr(k),
    {
        let ghost before = self.attrs@;
        match find_attr(&self.attrs, key) {
            Some(i) => {
                self.attrs.set(i, (owned(key), owned(value)));
                proof {
                    assert forall|k: Seq<char>| k != key@ implies attr_of(self.attrs@, k)
                        == attr_of(before, k) by {
                        lemma_attr_of_update(before, i as int, self.attrs@[i as int], k);
                    }
                    lemma_attr_of_update(before, i as int, self.attrs@[i as int], key@);
                }
            },
            None => {
                self.attrs.push((owned(key), owned(value)));
                proof {
                    lemma_attr_of_absent(before, key@);
                    assert forall|k: Seq<char>| true implies attr_of(self.attrs@, k) == (
                    if attr_of(before, k) is Some {
                        attr_of(before, k)
                    } else if self.attrs@.last().0@ == k {
                        Some(self.attrs@.last().1@)
                    } else {
                        None
                    }) by {
                        lemma_attr_of_push(before, self.attrs@.last(), k);
                    }
                }
            },
        }
    }

    /// This node with child nodes as content.
    pub fn with_nodes(self, nodes: Vec<BinaryNode>) -> (n: Self)
        ensures
            n.tag == self.tag,
            n.attrs == self.attrs,
            n.content == Some(NodeContent::Nodes(nodes)),
            n.children() == nodes@,
    {
        BinaryNode { tag: self.tag, attrs: self.attrs, content: Some(NodeContent::Nodes(nodes)) }
    }

    /// This node with byte content.
    pub fn with_bytes(self, bytes: Vec<u8>) -> (n: Self)
        ensures
            n.tag == self.tag,
            n.attrs == self.attrs,
            n.content == Some(NodeContent::Bytes(bytes)),
            n.bytes_content() == Some(bytes@),
    {
        BinaryNode { tag: self.tag, attrs: self.attrs, content: Some(NodeContent::Bytes(bytes)) }
    }

    /// This node with text content.
    pub fn with_text(self, text: &str) -> (n: Self)
        ensures
            n.tag == self.tag,
            n.attrs == self.attrs,
            n.content matches Some(NodeContent::Text(t)) && t@ == text@,
    {
        BinaryNode { tag: self.tag, attrs: self.attrs, content: Some(NodeContent::Text(owned(text))) }
    }

    /// Attribute `key` of this node, if any.
    pub fn get_attr(&self, key: &str) -> (r: Option<&String>)
        ensures
            match r {
                Some(v) => self.attr(key@) == Some(v@),
                None => self.attr(key@).is_none(),
            },
    {
        match find_attr(&self.attrs, key) {
            Some(i) => {
                proof {
                    lemma_attr_of_first(self.attrs@, i as int, key@);
                }
                let v = &self.attrs[i].1;
                assert(v@ == self.attrs@[i as int].1@);
                Some(v)
            },
            None => {
                proof {
                    lemma_attr_of_absent(self.attrs@, key@);
                }
                None
            },
        }
    }

    /// Attribute `key` as a string slice, if any.
    pub fn attr_str(&self, key: &str) -> (r: Option<&str>)
        ensures
            match r {
                Some(v) => self.attr(key@) == Some(v@),
                None => self.attr(key@).is_none(),
            },
    {
        match self.get_attr(key) {
            Some(v) => Some(v.as_str()),
            None => None,
        }
    }

    /// The child nodes of this node (empty unless the content is nodes).
    pub fn child_list(&self) -> (r: &[BinaryNode])
        ensures
            r@ == self.children(),
    {
        match &self.content {
            Some(NodeContent::Nodes(v)) => v.as_slice(),
            _ => &[],
        }
    }

    /// Positions, among this node's children, of those tagged `tag`.
    pub fn child_positions(&self, tag: &str) -> (r: Vec<usize>)
        ensures
            r@.len() == self.children_tagged(tag@).len(),
            forall|j: int| 0 <= j < r@.len() ==> #[trigger] r@[j] < self.children().len(),
            forall|j: int|
                0 <= j < r@.len() ==> self.children()[#[trigger] r@[j] as int]
                    == self.children_tagged(tag@)[j],
    {
        let children = self.child_list();
        let mut out: Vec<usize> = Vec::new();
        let mut i: usize = 0;
        while i < children.len()
            invariant
                0 <= i <= children@.len(),
                children@ == self.children(),
                out@.len() == with_tag(children@.take(i as int), tag@).len(),
                forall|j: int| 0 <= j < out@.len() ==> #[trigger] out@[j] < i,
                forall|j: int|
                    0 <= j < out@.len() ==> children@[#[trigger] out@[j] as int]
                        == with_tag(children@.take(i as int), tag@)[j],
            decreases children@.len() - i,
        {
            let ghost prev = with_tag(children@.take(i as int), tag@);
            let ghost old_out = out@;
            assert(children@.take(i as int + 1).drop_last() == children@.take(i as int));
            assert(children@.take(i as int + 1).last() == children@[i as int]);
            let ghost next = with_tag(children@.take(i as int + 1), tag@);
            if str_eq(children[i].tag.as_str(), tag) {
                out.push(i);
                assert(next == prev.push(children@[i as int]));
                assert forall|j: int| 0 <= j < out@.len() implies #[trigger] out@[j] < i + 1
                    && children@[out@[j] as int] == next[j] by {
                    if j < old_out.len() {
                        assert(out@[j] == old_out[j]);
                        assert(old_out[j] < i);
                        assert(children@[old_out[j] as int] == prev[j]);
                    }
                }
            } else {
                assert(next == prev);
                assert forall|j: int| 0 <= j < out@.len() implies #[trigger] out@[j] < i + 1
                    && children@[out@[j] as int] == next[j] by {
                    assert(old_out[j] < i);
                    assert(children@[old_out[j] as int] == prev[j]);
                }
            }
            i = i + 1;
        }
        assert(children@.take(children@.len() as int) == children@);
        out
    }

    /// The first child tagged `tag`, if any.
    pub fn child_node(&self, tag: &str) -> (r: Option<&BinaryNode>)
        ensures
            match r {
                Some(c) => self.children_tagged(tag@).len() > 0 && *c == self.children_tagged(
                    tag@,
                )[0],
                None => self.children_tagged(tag@).len() == 0,
            },
    {
        let positions = self.child_positions(tag);
        if positions.len() == 0 {
            None
        } else {
            let children = self.child_list();
            Some(&children[positions[0]])
        }
    }

    /// Byte content of this node, if it holds bytes.
    pub fn content_bytes(&self) -> (r: Option<&Vec<u8>>)
        ensures
            match r {
                Some(b) => self.bytes_content() == Some(b@),
                None => self.bytes_content().is_none(),
            },
    {
        match &self.content {
            Some(NodeContent::Bytes(b)) => Some(b),
            _ => None,
        }
    }
}

/// Position of the first attribute named `key`.
fn find_attr(attrs: &Vec<(String, String)>, key: &str) -> (r: Option<usize>)
    ensures
        match r {
            Some(i) => i < attrs@.len() && attrs@[i as int].0@ == key@ && forall|j: int|
                0 <= j < i ==> attrs@[j].0@ != key@,
            None => forall|j: int| 0 <= j < attrs@.len() ==> attrs@[j].0@ != key@,
        },
{
    let mut i: usize = 0;
    while i < attrs.len()
        invariant
            0 <= i <= attrs@.len(),
            forall|j: int| 0 <= j < i ==> attrs@[j].0@ != key@,
        decreases attrs@.len() - i,
    {
        if str_eq(attrs[i].0.as_str(), key) {
            return Some(i);
        }
        i = i + 1;
    }
    None
}

proof fn lemma_attr_of_first(attrs: Seq<(String, String)>, i: int, key: Seq<char>)
    requires
        0 <= i < attrs.len(),
        attrs[i].0@ == key,
        forall|j: int| 0 <= j < i ==> attrs[j].0@ != key,
    ensures
        attr_of(attrs, key) == Some(attrs[i].1@),
    decreases i,
{
    if i > 0 {
        lemma_attr_of_first(attrs.drop_first(), i - 1, key);
    }
}

proof fn lemma_attr_of_absent(attrs: Seq<(String, String)>, key: Seq<char>)
    requires
        forall|j: int| 0 <= j < attrs.len() ==> attrs[j].0@ != key,
    ensures
        attr_of(attrs, key).is_none(),
    decreases attrs.len(),
{
    if attrs.len() > 0 {
        lemma_attr_of_absent(attrs.drop_first(), key);
    }
}

proof fn lemma_attr_of_update(
    attrs: Seq<(String, String)>,
    i: int,
    p: (String, String),
    k: Seq<char>,
)
    requires
        0 <= i < attrs.len(),
        p.0@ == attrs[i].0@,
        forall|j: int| 0 <= j < i ==> attrs[j].0@ != attrs[i].0@,
    ensures
        k == attrs[i].0@ ==> attr_of(attrs.update(i, p), k) == Some(p.1@),
        k != attrs[i].0@ ==> attr_of(attrs.update(i, p), k) == attr_of(attrs, k),
    decreases i,
{
    let u = attrs.update(i, p);
    if i == 0 {
        assert(u.drop_first() == attrs.drop_first());
    } else {
        assert(u.drop_first() == attrs.drop_first().update(i - 1, p));
        lemma_attr_of_update(attrs.drop_first(), i - 1, p, k);
    }
}

proof fn lemma_attr_of_push(attrs: Seq<(String, String)>, p: (String, String), k: Seq<char>)
    ensures
        attr_of(attrs.push(p), k) == (if attr_of(attrs, k) is Some {
            attr_of(attrs, k)
        } else if p.0@ == k {
            Some(p.1@)
        } else {
            None
        }),
    decreases attrs.len(),
{
    if attrs.len() == 0 {
        assert(attrs.push(p)[0] == p);
        assert(attrs.push(p).drop_first().len() == 0);
        assert(attr_of(attrs.push(p).drop_first(), k).is_none());
    } else {
        assert(attrs.push(p)[0] == attrs[0]);
        assert(attrs.push(p).drop_first() == attrs.drop_first().push(p));
        lemma_attr_of_push(attrs.drop_first(), p, k);
    }
}

} // verus!
