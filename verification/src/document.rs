//! A plain tree of texts and numbers.
use vstd::prelude::*;

verus! {

/// A value of a document: a text, a number, or a list of values.
#[derive(Debug)]
pub enum Node {
    Text(String),
    Number(u64),
    List(Vec<Node>),
}

pub enum NodeView {
    Text(Seq<char>),
    Number(u64),
    List(Seq<NodeView>),
}

pub open spec fn node_view(node: Node) -> NodeView
    decreases node,
{
    match node {
        Node::Text(text) => NodeView::Text(text@),
        Node::Number(n) => NodeView::Number(n),
        Node::List(items) => NodeView::List(
            Seq::new(items@.len(), |i: int| if 0 <= i < items@.len() { node_view(items@[i]) } else { NodeView::Number(0) }),
        ),
    }
}

impl View for Node {
    type V = NodeView;

    open spec fn view(&self) -> NodeView {
        node_view(*self)
    }
}

pub fn copy_node(node: &Node) -> (copy: Node)
    ensures
        copy@ == node@,
    decreases node,
{
    match node {
        Node::Text(text) => Node::Text(text.clone()),
        Node::Number(n) => Node::Number(*n),
        Node::List(items) => {
            let mut out: Vec<Node> = Vec::new();
            let mut i: usize = 0;
            assert(decreases_to!(*node => *items));
            while i < items.len()
                invariant
                    i <= items.len(),
                    decreases_to!(*node => *items),
                    out.len() == i,
                    forall|j: int| 0 <= j < i ==> out@[j]@ == items@[j]@,
                decreases items.len() - i,
            {
                proof {
                    vstd::std_specs::vec::axiom_vec_index_decreases(*items, i as int);
                }
                out.push(copy_node(&items[i]));
                i += 1;
            }
            let copy = Node::List(out);
            assert(copy@ == node@) by {
                assert(copy@->List_0 =~= node@->List_0);
            }
            copy
        },
    }
}

/// The views of a list of nodes.
pub open spec fn node_views(items: Seq<Node>) -> Seq<NodeView> {
    items.map_values(|n: Node| n@)
}

pub proof fn lemma_list_view(items: Vec<Node>)
    ensures
        Node::List(items)@ == NodeView::List(node_views(items@)),
{
    assert(Node::List(items)@->List_0 =~= node_views(items@));
}

impl Node {
    pub fn text(text: &str) -> (node: Node)
        ensures
            node@ == NodeView::Text(text@),
    {
        Node::Text(crate::text::string_of(&crate::text::chars_of(text)))
    }

    pub fn number(n: u64) -> (node: Node)
        ensures
            node@ == NodeView::Number(n),
    {
        Node::Number(n)
    }

    pub fn flag(b: bool) -> (node: Node)
        ensures
            node@ == NodeView::Number(if b {
                1
            } else {
                0
            }),
    {
        Node::Number(if b {
            1
        } else {
            0
        })
    }

    pub fn list(items: Vec<Node>) -> (node: Node)
        ensures
            node@ == NodeView::List(node_views(items@)),
    {
        proof {
            lemma_list_view(items);
        }
        Node::List(items)
    }

    pub fn list0() -> (node: Node)
        ensures
            node@ == NodeView::List(Seq::empty()),
    {
        let items: Vec<Node> = Vec::new();
        assert(node_views(items@) =~= Seq::empty());
        Node::list(items)
    }

    pub fn list1(a: Node) -> (node: Node)
        ensures
            node@ == NodeView::List(seq![a@]),
    {
        let mut items: Vec<Node> = Vec::new();
        items.push(a);
        assert(node_views(items@) =~= seq![a@]);
        Node::list(items)
    }

    pub fn list2(a: Node, b: Node) -> (node: Node)
        ensures
            node@ == NodeView::List(seq![a@, b@]),
    {
        let mut items: Vec<Node> = Vec::new();
        items.push(a);
        items.push(b);
        assert(node_views(items@) =~= seq![a@, b@]);
        Node::list(items)
    }

    pub fn list3(a: Node, b: Node, c: Node) -> (node: Node)
        ensures
            node@ == NodeView::List(seq![a@, b@, c@]),
    {
        let mut items: Vec<Node> = Vec::new();
        items.push(a);
        items.push(b);
        items.push(c);
        assert(node_views(items@) =~= seq![a@, b@, c@]);
        Node::list(items)
    }

    pub fn list4(a: Node, b: Node, c: Node, d: Node) -> (node: Node)
        ensures
            node@ == NodeView::List(seq![a@, b@, c@, d@]),
    {
        let mut items: Vec<Node> = Vec::new();
        items.push(a);
        items.push(b);
        items.push(c);
        items.push(d);
        assert(node_views(items@) =~= seq![a@, b@, c@, d@]);
        Node::list(items)
    }

    /// The items of a list.
    pub fn items(&self) -> (r: Option<&Vec<Node>>)
        ensures
            match r {
                Some(items) => self@ == NodeView::List(node_views(items@)),
                None => !(self@ is List),
            },
    {
        match self {
            Node::List(items) => {
                proof {
                    lemma_list_view(*items);
                }
                Some(items)
            },
            _ => None,
        }
    }

    pub fn as_text(&self) -> (r: Option<&String>)
        ensures
            match r {
                Some(text) => self@ == NodeView::Text(text@),
                None => !(self@ is Text),
            },
    {
        match self {
            Node::Text(text) => Some(text),
            _ => None,
        }
    }

    pub fn as_number(&self) -> (r: Option<u64>)
        ensures
            match r {
                Some(n) => self@ == NodeView::Number(n),
                None => !(self@ is Number),
            },
    {
        match self {
            Node::Number(n) => Some(*n),
            _ => None,
        }
    }

    /// The items of a list of exactly `len` items.
    pub fn tuple(&self, len: usize) -> (r: Option<&Vec<Node>>)
        ensures
            match r {
                Some(items) => self@ == NodeView::List(node_views(items@)) && items@.len() == len,
                None => !(self@ matches NodeView::List(items) && items.len() == len),
            },
    {
        match self.items() {
            Some(items) => {
                if items.len() == len {
                    Some(items)
                } else {
                    None
                }
            },
            None => None,
        }
    }

    /// The tag of a list that starts with a number, and its items, the
    /// tag among them.
    pub fn tagged(&self) -> (r: Option<(u64, &Vec<Node>)>)
        ensures
            match r {
                Some((tag, items)) => self@ == NodeView::List(node_views(items@)) && items@.len()
                    >= 1 && node_views(items@)[0] == NodeView::Number(tag),
                None => !(self@ matches NodeView::List(items) && items.len() >= 1
                    && items[0] is Number),
            },
    {
        match self.items() {
            Some(items) => {
                if items.len() >= 1 {
                    match items[0].as_number() {
                        Some(tag) => Some((tag, items)),
                        None => None,
                    }
                } else {
                    None
                }
            },
            None => None,
        }
    }
}

} // verus!
