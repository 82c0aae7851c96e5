//! The supervisor's configuration file: an XML document with a
//! `supervisor` element (the sockets of the router and of the web
//! interface) and a `robots` element (the robots' network and one element
//! per drone and per Pi-Pucks with their addresses and identifiers).
use vstd::prelude::*;
use roxmltree::Error as XmlParseError;
use crate::shared::{drone, pipuck};
use crate::text::{mac_parse, parse_i32, parse_i32_spec, parse_mac};
use crate::xml::{attrs_view, nodes_view, parse_xml, xml_document, XmlNode};

verus! {

/// Why a configuration file cannot be used.
#[derive(Debug)]
pub enum ConfigError {
    /// The file is not XML.
    Parse(XmlParseError),
    /// The file has no `supervisor` element.
    MissingSupervisor,
    /// The drone at this position among the drones is incomplete or
    /// malformed.
    InvalidDrone(usize),
    /// The Pi-Puck at this position among the Pi-Pucks is incomplete or
    /// malformed.
    InvalidPiPuck(usize),
}

/// What a configuration file holds.
#[derive(Debug)]
pub struct Configuration {
    pub router_socket: Option<String>,
    pub webui_socket: Option<String>,
    pub robot_network: Option<String>,
    pub drones: Vec<drone::Descriptor>,
    pub pipucks: Vec<pipuck::Descriptor>,
}

/// A node's view: identifier, parent, tag name and attributes.
pub type NodeView = (u32, Option<u32>, Seq<char>, Seq<(Seq<char>, Seq<char>)>);

/// The value of the first attribute called `name`.
pub open spec fn attr(attrs: Seq<(Seq<char>, Seq<char>)>, name: Seq<char>) -> Option<Seq<char>>
    decreases attrs.len(),
{
    if attrs.len() == 0 {
        None
    } else if attrs[0].0 == name {
        Some(attrs[0].1)
    } else {
        attr(attrs.drop_first(), name)
    }
}

/// The elements called `name`, in document order.
pub open spec fn elements(nodes: Seq<NodeView>, name: Seq<char>) -> Seq<NodeView> {
    nodes.filter(|n: NodeView| n.2 == name)
}

/// The value of attribute `a` of the first element called `name`.
pub open spec fn first_attr(nodes: Seq<NodeView>, name: Seq<char>, a: Seq<char>) -> Option<Seq<char>> {
    if elements(nodes, name).len() == 0 { None } else { attr(elements(nodes, name)[0].3, a) }
}

/// An optional number attribute: absent, or a decimal `i32`.
pub open spec fn optional_number(attrs: Seq<(Seq<char>, Seq<char>)>, name: Seq<char>) -> Option<Option<i32>> {
    match attr(attrs, name) {
        None => Some(None),
        Some(text) => match parse_i32_spec(text) {
            Some(v) => Some(Some(v)),
            None => None,
        },
    }
}

/// Whether `d` is the drone that the attributes describe: its `id`, the
/// MAC addresses `xbee_addr` and `upcore_addr`, and an optional
/// `optitrack_id`.
pub open spec fn drone_described(d: drone::Descriptor, attrs: Seq<(Seq<char>, Seq<char>)>) -> bool {
    &&& attr(attrs, "id"@) == Some(d.id@)
    &&& (attr(attrs, "xbee_addr"@) matches Some(x) && mac_parse(x) == Some(d.xbee_macaddr@))
    &&& (attr(attrs, "upcore_addr"@) matches Some(u) && mac_parse(u) == Some(d.upcore_macaddr@))
    &&& optional_number(attrs, "optitrack_id"@) == Some(d.optitrack_id)
}

/// Whether the attributes describe a drone.
pub open spec fn drone_valid(attrs: Seq<(Seq<char>, Seq<char>)>) -> bool {
    &&& attr(attrs, "id"@) is Some
    &&& (attr(attrs, "xbee_addr"@) matches Some(x) && mac_parse(x) is Some)
    &&& (attr(attrs, "upcore_addr"@) matches Some(u) && mac_parse(u) is Some)
    &&& optional_number(attrs, "optitrack_id"@) is Some
}

/// An optional AprilTag identifier: absent, or a decimal from 0 to 255.
pub open spec fn optional_tag(attrs: Seq<(Seq<char>, Seq<char>)>) -> Option<Option<u8>> {
    match optional_number(attrs, "apriltag_id"@) {
        None => None,
        Some(None) => Some(None),
        Some(Some(v)) => if 0 <= v <= 255 { Some(Some(v as u8)) } else { None },
    }
}

/// Whether `p` is the Pi-Puck that the attributes describe: its `id`, the
/// MAC address `rpi_addr`, and optional `optitrack_id` and `apriltag_id`.
pub open spec fn pipuck_described(p: pipuck::Descriptor, attrs: Seq<(Seq<char>, Seq<char>)>) -> bool {
    &&& attr(attrs, "id"@) == Some(p.id@)
    &&& (attr(attrs, "rpi_addr"@) matches Some(r) && mac_parse(r) == Some(p.rpi_macaddr@))
    &&& optional_number(attrs, "optitrack_id"@) == Some(p.optitrack_id)
    &&& optional_tag(attrs) == Some(p.apriltag_id)
}

/// Whether the attributes describe a Pi-Puck.
pub open spec fn pipuck_valid(attrs: Seq<(Seq<char>, Seq<char>)>) -> bool {
    &&& attr(attrs, "id"@) is Some
    &&& (attr(attrs, "rpi_addr"@) matches Some(r) && mac_parse(r) is Some)
    &&& optional_number(attrs, "optitrack_id"@) is Some
    &&& optional_tag(attrs) is Some
}

/// The view of an optional string.
pub open spec fn text_view(s: Option<String>) -> Option<Seq<char>> {
    match s {
        Some(t) => Some(t@),
        None => None,
    }
}

/// The value of the attribute called `name`.
fn find_attr(attrs: &Vec<(String, String)>, name: &str) -> (res: Option<String>)
    ensures
        text_view(res) == attr(attrs_view(attrs@), name@),
{
    let ghost v = attrs_view(attrs@);
    let mut i: usize = 0;
    assert(v.skip(0) =~= v);
    while i < attrs.len()
        invariant
            i <= attrs@.len(),
            v == attrs_view(attrs@),
            attr(v, name@) == attr(v.skip(i as int), name@),
        decreases attrs.len() - i,
    {
        assert(v.skip(i as int)[0] == (attrs@[i as int].0@, attrs@[i as int].1@));
        assert(v.skip(i as int).drop_first() =~= v.skip(i + 1));
        if crate::text::is_text(&attrs[i].0, name) {
            return Some(attrs[i].1.clone());
        }
        i = i + 1;
    }
    assert(v.skip(i as int) =~= Seq::<(Seq<char>, Seq<char>)>::empty());
    None
}

/// An optional number attribute.
fn find_number(attrs: &Vec<(String, String)>, name: &str) -> (res: Option<Option<i32>>)
    ensures
        res == optional_number(attrs_view(attrs@), name@),
{
    match find_attr(attrs, name) {
        None => Some(None),
        Some(text) => match parse_i32(text.as_str()) {
            Some(v) => Some(Some(v)),
            None => None,
        },
    }
}

/// The drone that a `drone` element describes.
fn read_drone(attrs: &Vec<(String, String)>) -> (res: Option<drone::Descriptor>)
    ensures
        match res {
            Some(d) => drone_described(d, attrs_view(attrs@)),
            None => !drone_valid(attrs_view(attrs@)),
        },
{
    let id = find_attr(attrs, "id")?;
    let xbee_text = find_attr(attrs, "xbee_addr")?;
    let xbee = parse_mac(xbee_text.as_str())?;
    let upcore_text = find_attr(attrs, "upcore_addr")?;
    let upcore = parse_mac(upcore_text.as_str())?;
    let optitrack = find_number(attrs, "optitrack_id")?;
    Some(drone::Descriptor { id, xbee_macaddr: xbee, upcore_macaddr: upcore, optitrack_id: optitrack })
}

/// The Pi-Puck that a `pipuck` element describes.
fn read_pipuck(attrs: &Vec<(String, String)>) -> (res: Option<pipuck::Descriptor>)
    ensures
        match res {
            Some(p) => pipuck_described(p, attrs_view(attrs@)),
            None => !pipuck_valid(attrs_view(attrs@)),
        },
{
    let id = find_attr(attrs, "id")?;
    let rpi_text = find_attr(attrs, "rpi_addr")?;
    let rpi = parse_mac(rpi_text.as_str())?;
    let optitrack = find_number(attrs, "optitrack_id")?;
    let tag = match find_number(attrs, "apriltag_id")? {
        None => None,
        Some(v) => if 0 <= v && v <= 255 { Some(v as u8) } else { return None; },
    };
    Some(pipuck::Descriptor { id, rpi_macaddr: rpi, optitrack_id: optitrack, apriltag_id: tag })
}

/// Reads a configuration file's text.
pub fn read_config(text: &str) -> (res: Result<Configuration, ConfigError>)
    ensures
        xml_document(text@) is None <==> res matches Err(ConfigError::Parse(_)),
        xml_document(text@) matches Some(nodes) ==> {
            let drones = elements(nodes, "drone"@);
            let pipucks = elements(nodes, "pipuck"@);
            if elements(nodes, "supervisor"@).len() == 0 {
                res matches Err(ConfigError::MissingSupervisor)
            } else {
                match res {
                    Ok(c) => {
                        &&& text_view(c.router_socket) == first_attr(nodes, "router"@, "socket"@)
                        &&& text_view(c.webui_socket) == first_attr(nodes, "webui"@, "socket"@)
                        &&& text_view(c.robot_network) == first_attr(nodes, "robots"@, "network"@)
                        &&& c.drones@.len() == drones.len()
                        &&& (forall|i: int| 0 <= i < drones.len() ==> drone_described(#[trigger] c.drones@[i], drones[i].3))
                        &&& c.pipucks@.len() == pipucks.len()
                        &&& (forall|i: int| 0 <= i < pipucks.len() ==> pipuck_described(#[trigger] c.pipucks@[i], pipucks[i].3))
                    },
                    Err(ConfigError::InvalidDrone(i)) => i < drones.len() && !drone_valid(drones[i as int].3)
                        && forall|j: int| 0 <= j < i ==> drone_valid(#[trigger] drones[j].3),
                    Err(ConfigError::InvalidPiPuck(i)) => i < pipucks.len() && !pipuck_valid(pipucks[i as int].3)
                        && forall|j: int| 0 <= j < drones.len() ==> drone_valid(#[trigger] drones[j].3),
                    Err(_) => false,
                }
            }
        },
{
    let nodes = match parse_xml(text) {
        Ok(nodes) => nodes,
        Err(error) => return Err(ConfigError::Parse(error)),
    };
    let ghost all = nodes_view(nodes@);
    let mut found_supervisor = false;
    let mut router: Option<String> = None;
    let mut webui: Option<String> = None;
    let mut network: Option<String> = None;
    let mut seen_router = false;
    let mut seen_webui = false;
    let mut seen_robots = false;
    let mut drones: Vec<drone::Descriptor> = Vec::new();
    let mut pipucks: Vec<pipuck::Descriptor> = Vec::new();
    let mut drone_error: Option<usize> = None;
    let mut pipuck_error: Option<usize> = None;
    let mut i: usize = 0;
    while i < nodes.len()
        invariant
            i <= nodes@.len(),
            all == nodes_view(nodes@),
            found_supervisor == (elements(all.take(i as int), "supervisor"@).len() > 0),
            seen_router == (elements(all.take(i as int), "router"@).len() > 0),
            seen_webui == (elements(all.take(i as int), "webui"@).len() > 0),
            seen_robots == (elements(all.take(i as int), "robots"@).len() > 0),
            seen_router ==> text_view(router) == first_attr(all.take(i as int), "router"@, "socket"@),
            seen_webui ==> text_view(webui) == first_attr(all.take(i as int), "webui"@, "socket"@),
            seen_robots ==> text_view(network) == first_attr(all.take(i as int), "robots"@, "network"@),
            drone_error is None ==> {
                &&& drones@.len() == elements(all.take(i as int), "drone"@).len()
                &&& forall|j: int| 0 <= j < drones@.len() ==> drone_described(#[trigger] drones@[j], elements(all.take(i as int), "drone"@)[j].3)
            },
            drone_error matches Some(k) ==> k < elements(all, "drone"@).len() && !drone_valid(elements(all, "drone"@)[k as int].3)
                && forall|j: int| 0 <= j < k ==> drone_valid(#[trigger] elements(all, "drone"@)[j].3),
            pipuck_error is None ==> {
                &&& pipucks@.len() == elements(all.take(i as int), "pipuck"@).len()
                &&& forall|j: int| 0 <= j < pipucks@.len() ==> pipuck_described(#[trigger] pipucks@[j], elements(all.take(i as int), "pipuck"@)[j].3)
            },
            pipuck_error matches Some(k) ==> k < elements(all, "pipuck"@).len() && !pipuck_valid(elements(all, "pipuck"@)[k as int].3),
        decreases nodes.len() - i,
    {
        let ghost pre = all.take(i as int);
        let ghost n = all[i as int];
        assert(all.take(i + 1) =~= pre.push(n));
        assert(n == nodes@[i as int]@);
        proof {
            lemma_elements_push(pre, n, "supervisor"@);
            lemma_elements_push(pre, n, "router"@);
            lemma_elements_push(pre, n, "webui"@);
            lemma_elements_push(pre, n, "robots"@);
            lemma_elements_push(pre, n, "drone"@);
            lemma_elements_push(pre, n, "pipuck"@);
            lemma_elements_prefix(all, i as int, "drone"@);
            lemma_elements_prefix(all, i as int, "pipuck"@);
            lemma_elements_prefix(all, i + 1, "drone"@);
            lemma_elements_prefix(all, i + 1, "pipuck"@);
        }
        let node = &nodes[i];
        if crate::text::is_text(&node.name, "supervisor") {
            found_supervisor = true;
        }
        if !seen_router && crate::text::is_text(&node.name, "router") {
            router = find_attr(&node.attributes, "socket");
            seen_router = true;
        }
        if !seen_webui && crate::text::is_text(&node.name, "webui") {
            webui = find_attr(&node.attributes, "socket");
            seen_webui = true;
        }
        if !seen_robots && crate::text::is_text(&node.name, "robots") {
            network = find_attr(&node.attributes, "network");
            seen_robots = true;
        }
        if drone_error.is_none() && crate::text::is_text(&node.name, "drone") {
            match read_drone(&node.attributes) {
                Some(d) => drones.push(d),
                None => {
                    proof {
                        let el = elements(all.take(i + 1), "drone"@);
                        let k = drones@.len() as int;
                        assert(el[k] == n);
                        assert(elements(all, "drone"@)[k] == n);
                        assert forall|j: int| 0 <= j < k implies drone_valid(#[trigger] elements(all, "drone"@)[j].3) by {
                            assert(drone_described(drones@[j], elements(all.take(i as int), "drone"@)[j].3));
                            assert(elements(all.take(i as int), "drone"@)[j] == elements(all, "drone"@)[j]);
                        }
                    }
                    drone_error = Some(drones.len());
                },
            }
        }
        if pipuck_error.is_none() && crate::text::is_text(&node.name, "pipuck") {
            match read_pipuck(&node.attributes) {
                Some(p) => pipucks.push(p),
                None => {
                    proof {
                        let el = elements(all.take(i + 1), "pipuck"@);
                        let k = pipucks@.len() as int;
                        assert(el[k] == n);
                        assert(elements(all, "pipuck"@)[k] == n);
                    }
                    pipuck_error = Some(pipucks.len());
                },
            }
        }
        i = i + 1;
    }
    assert(all.take(i as int) =~= all);
    if !found_supervisor {
        return Err(ConfigError::MissingSupervisor);
    }
    if let Some(k) = drone_error {
        return Err(ConfigError::InvalidDrone(k));
    }
    if let Some(k) = pipuck_error {
        proof {
            assert forall|j: int| 0 <= j < elements(all, "drone"@).len() implies drone_valid(#[trigger] elements(all, "drone"@)[j].3) by {
                assert(drone_described(drones@[j], elements(all, "drone"@)[j].3));
            }
        }
        return Err(ConfigError::InvalidPiPuck(k));
    }
    if !seen_router {
        router = None;
    }
    if !seen_webui {
        webui = None;
    }
    if !seen_robots {
        network = None;
    }
    Ok(Configuration { router_socket: router, webui_socket: webui, robot_network: network, drones, pipucks })
}

/// Adding a node to a document adds it to the elements of its name.
proof fn lemma_elements_push(nodes: Seq<NodeView>, n: NodeView, name: Seq<char>)
    ensures
        elements(nodes.push(n), name) == if n.2 == name { elements(nodes, name).push(n) } else { elements(nodes, name) },
{
    reveal(Seq::filter);
    assert(nodes.push(n).drop_last() =~= nodes);
}

/// The elements of a prefix of a document are a prefix of its elements.
proof fn lemma_elements_prefix(nodes: Seq<NodeView>, k: int, name: Seq<char>)
    requires
        0 <= k <= nodes.len(),
    ensures
        elements(nodes.take(k), name).len() <= elements(nodes, name).len(),
        forall|j: int| 0 <= j < elements(nodes.take(k), name).len() ==> #[trigger] elements(nodes.take(k), name)[j] == elements(nodes, name)[j],
    decreases nodes.len() - k,
{
    if k < nodes.len() {
        lemma_elements_prefix(nodes, k + 1, name);
        assert(nodes.take(k + 1) =~= nodes.take(k).push(nodes[k]));
        lemma_elements_push(nodes.take(k), nodes[k], name);
        let short = elements(nodes.take(k), name);
        let long = elements(nodes.take(k + 1), name);
        assert forall|j: int| 0 <= j < short.len() implies #[trigger] short[j] == elements(nodes, name)[j] by {
            assert(short[j] == long[j]);
        }
    } else {
        assert(nodes.take(k) =~= nodes);
    }
}

} // verus!
