//! The nodes of an XML document and the Lua scripts that an ARGoS
//! configuration file references.
use vstd::prelude::*;
use crate::text::is_text;
use roxmltree::Error as XmlParseError;

verus! {

#[verifier::external_type_specification]
#[verifier::external_body]
pub struct ExXmlError(XmlParseError);

/// A node of a parsed XML document: its identifier, its parent's
/// identifier, its tag name (empty for nodes that are not elements) and its
/// attributes in document order.
#[derive(Debug)]
pub struct XmlNode {
    pub id: u32,
    pub parent: Option<u32>,
    pub name: String,
    pub attributes: Vec<(String, String)>,
}

/// The view of the attributes of a node.
pub open spec fn attrs_view(attrs: Seq<(String, String)>) -> Seq<(Seq<char>, Seq<char>)> {
    attrs.map_values(|a: (String, String)| (a.0@, a.1@))
}

impl View for XmlNode {
    type V = (u32, Option<u32>, Seq<char>, Seq<(Seq<char>, Seq<char>)>);

    open spec fn view(&self) -> Self::V {
        (self.id, self.parent, self.name@, attrs_view(self.attributes@))
    }
}

/// The nodes that roxmltree parses from `text`, in document order, or `None`
/// where it rejects the text.
pub uninterp spec fn xml_document(text: Seq<char>) -> Option<Seq<(u32, Option<u32>, Seq<char>, Seq<(Seq<char>, Seq<char>)>)>>;

/// The view of a list of nodes.
pub open spec fn nodes_view(nodes: Seq<XmlNode>) -> Seq<(u32, Option<u32>, Seq<char>, Seq<(Seq<char>, Seq<char>)>)> {
    nodes.map_values(|n: XmlNode| n@)
}

/// Parses `text` with `roxmltree::Document::parse` and lists the document's
/// nodes (`Document::descendants`, the root first) with their identifiers,
/// parents, tag names and attributes. What the nodes are is left to the name
/// `xml_document`; the contract states only that an error comes exactly
/// where the name has no document.
#[verifier::external_body]
pub(crate) fn parse_xml(text: &str) -> (res: Result<Vec<XmlNode>, XmlParseError>)
    ensures
        match res {
            Ok(nodes) => xml_document(text@) == Some(nodes_view(nodes@)),
            Err(_) => xml_document(text@) is None,
        },
{
    let doc = roxmltree::Document::parse(text)?;
    Ok(doc.descendants().map(|node| XmlNode {
        id: node.id().get(),
        parent: node.parent().map(|parent| parent.id().get()),
        name: node.tag_name().name().to_owned(),
        attributes: node.attributes().map(|a| (a.name().to_owned(), a.value().to_owned())).collect(),
    }).collect())
}

/// The values of the `script` attributes among `attrs`, in order.
pub open spec fn script_attrs(attrs: Seq<(Seq<char>, Seq<char>)>) -> Seq<Seq<char>>
    decreases attrs.len(),
{
    if attrs.len() == 0 {
        Seq::empty()
    } else {
        script_attrs(attrs.drop_last()) + if attrs.last().0 == "script"@ {
            seq![attrs.last().1]
        } else {
            Seq::empty()
        }
    }
}

/// The scripts named by the `params` children of the node `lua_id`, among
/// the first `k` nodes.
pub open spec fn params_scripts(nodes: Seq<(u32, Option<u32>, Seq<char>, Seq<(Seq<char>, Seq<char>)>)>, lua_id: u32, k: nat) -> Seq<Seq<char>>
    decreases k,
{
    if k == 0 || k > nodes.len() {
        Seq::empty()
    } else {
        let n = nodes[k - 1];
        params_scripts(nodes, lua_id, (k - 1) as nat) + if n.1 == Some(lua_id) && n.2 == "params"@ {
            script_attrs(n.3)
        } else {
            Seq::empty()
        }
    }
}

/// The scripts named by the `lua_controller` children of the node
/// `ctrl_id`, among the first `k` nodes.
pub open spec fn lua_scripts(nodes: Seq<(u32, Option<u32>, Seq<char>, Seq<(Seq<char>, Seq<char>)>)>, ctrl_id: u32, k: nat) -> Seq<Seq<char>>
    decreases k,
{
    if k == 0 || k > nodes.len() {
        Seq::empty()
    } else {
        let n = nodes[k - 1];
        lua_scripts(nodes, ctrl_id, (k - 1) as nat) + if n.1 == Some(ctrl_id) && n.2 == "lua_controller"@ {
            params_scripts(nodes, n.0, nodes.len())
        } else {
            Seq::empty()
        }
    }
}

/// The scripts named under the `controllers` elements among the first `k`
/// nodes.
pub open spec fn controller_scripts(nodes: Seq<(u32, Option<u32>, Seq<char>, Seq<(Seq<char>, Seq<char>)>)>, k: nat) -> Seq<Seq<char>>
    decreases k,
{
    if k == 0 || k > nodes.len() {
        Seq::empty()
    } else {
        let n = nodes[k - 1];
        controller_scripts(nodes, (k - 1) as nat) + if n.2 == "controllers"@ {
            lua_scripts(nodes, n.0, nodes.len())
        } else {
            Seq::empty()
        }
    }
}

/// The `script` attributes of every `params` element that is a child of a
/// `lua_controller` element that is a child of a `controllers` element: the
/// controllers in document order, then their children, then theirs.
pub open spec fn referenced_scripts(nodes: Seq<(u32, Option<u32>, Seq<char>, Seq<(Seq<char>, Seq<char>)>)>) -> Seq<Seq<char>> {
    controller_scripts(nodes, nodes.len())
}

/// The view of a list of strings.
pub open spec fn strings_view(v: Seq<String>) -> Seq<Seq<char>> {
    v.map_values(|s: String| s@)
}

proof fn lemma_strings_view_push(v: Seq<String>, s: String)
    ensures
        strings_view(v.push(s)) == strings_view(v).push(s@),
{
    assert(strings_view(v.push(s)) =~= strings_view(v).push(s@));
}

proof fn lemma_strings_view_add(a: Seq<String>, b: Seq<String>)
    ensures
        strings_view(a + b) == strings_view(a) + strings_view(b),
{
    assert(strings_view(a + b) =~= strings_view(a) + strings_view(b));
}

/// Appends `b` to `a`.
fn append_strings(a: &mut Vec<String>, b: Vec<String>)
    ensures
        strings_view(final(a)@) == strings_view(old(a)@) + strings_view(b@),
{
    let mut b = b;
    let ghost bv = b@;
    proof { lemma_strings_view_add(a@, b@); }
    a.append(&mut b);
    assert(final(a)@ =~= old(a)@ + bv);
}

/// The values of the `script` attributes of a node.
fn script_attributes(attrs: &Vec<(String, String)>) -> (res: Vec<String>)
    ensures
        strings_view(res@) == script_attrs(attrs_view(attrs@)),
{
    let mut res: Vec<String> = Vec::new();
    let mut k: usize = 0;
    while k < attrs.len()
        invariant
            k <= attrs.len(),
            strings_view(res@) == script_attrs(attrs_view(attrs@.take(k as int))),
        decreases attrs.len() - k,
    {
        let ghost pre = attrs@.take(k as int);
        let ghost cur = attrs@.take(k + 1);
        assert(cur.drop_last() =~= pre);
        assert(attrs_view(cur).drop_last() =~= attrs_view(pre));
        if is_text(&attrs[k].0, "script") {
            proof { lemma_strings_view_push(res@, attrs@[k as int].1); }
            res.push(attrs[k].1.clone());
        }
        k = k + 1;
    }
    assert(attrs@.take(k as int) =~= attrs@);
    res
}

/// The scripts named by the `params` children of node `lua_id`.
fn collect_params(nodes: &Vec<XmlNode>, lua_id: u32) -> (res: Vec<String>)
    ensures
        strings_view(res@) == params_scripts(nodes_view(nodes@), lua_id, nodes@.len()),
{
    let ghost nv = nodes_view(nodes@);
    let mut res: Vec<String> = Vec::new();
    let mut k: usize = 0;
    while k < nodes.len()
        invariant
            k <= nodes.len(),
            nv == nodes_view(nodes@),
            strings_view(res@) == params_scripts(nv, lua_id, k as nat),
        decreases nodes.len() - k,
    {
        let node = &nodes[k];
        assert(nv[k as int] == node@);
        if node.parent == Some(lua_id) && is_text(&node.name, "params") {
            let found = script_attributes(&node.attributes);
            append_strings(&mut res, found);
        }
        k = k + 1;
    }
    res
}

/// The scripts named by the `lua_controller` children of node `ctrl_id`.
fn collect_lua(nodes: &Vec<XmlNode>, ctrl_id: u32) -> (res: Vec<String>)
    ensures
        strings_view(res@) == lua_scripts(nodes_view(nodes@), ctrl_id, nodes@.len()),
{
    let ghost nv = nodes_view(nodes@);
    let mut res: Vec<String> = Vec::new();
    let mut k: usize = 0;
    while k < nodes.len()
        invariant
            k <= nodes.len(),
            nv == nodes_view(nodes@),
            strings_view(res@) == lua_scripts(nv, ctrl_id, k as nat),
        decreases nodes.len() - k,
    {
        let node = &nodes[k];
        assert(nv[k as int] == node@);
        if node.parent == Some(ctrl_id) && is_text(&node.name, "lua_controller") {
            let found = collect_params(nodes, node.id);
            append_strings(&mut res, found);
        }
        k = k + 1;
    }
    res
}

/// The scripts that the configuration's controllers reference, in the
/// order in which the configuration names them.
pub fn lua_script_references(nodes: &Vec<XmlNode>) -> (res: Vec<String>)
    ensures
        strings_view(res@) == referenced_scripts(nodes_view(nodes@)),
{
    let ghost nv = nodes_view(nodes@);
    let mut res: Vec<String> = Vec::new();
    let mut k: usize = 0;
    while k < nodes.len()
        invariant
            k <= nodes.len(),
            nv == nodes_view(nodes@),
            strings_view(res@) == controller_scripts(nv, k as nat),
        decreases nodes.len() - k,
    {
        let node = &nodes[k];
        assert(nv[k as int] == node@);
        if is_text(&node.name, "controllers") {
            let found = collect_lua(nodes, node.id);
            append_strings(&mut res, found);
        }
        k = k + 1;
    }
    res
}

} // verus!
