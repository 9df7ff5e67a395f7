//! The lists from which a guest or a node is chosen.
use crate::order::{before, less, sort_ranked, sorted, Ranked};
use crate::text::{blank, is_blank, lowered, one_of, opt_text, same, texts, to_lower};
use crate::types::GuestType;
use vstd::prelude::*;

verus! {

// ---------------------------------------------------------------------------------------------
// Guests
// ---------------------------------------------------------------------------------------------

/// A guest to choose.
#[derive(Debug, PartialEq)]
pub struct PveGuestEntry {
    /// The guest's ID.
    pub vmid: u32,
    /// The guest's name, or `-`.
    pub name: String,
    /// The node that was asked, or `-`.
    pub node: String,
    /// The guest's status.
    pub status: String,
    /// `qemu` or `lxc`.
    pub guest_type: String,
}

/// What a guest to choose says.
pub struct GuestView {
    pub vmid: u32,
    pub name: Seq<char>,
    pub node: Seq<char>,
    pub status: Seq<char>,
    pub guest_type: Seq<char>,
}

impl View for PveGuestEntry {
    type V = GuestView;

    open spec fn view(&self) -> GuestView {
        GuestView {
            vmid: self.vmid,
            name: self.name@,
            node: self.node@,
            status: self.status@,
            guest_type: self.guest_type@,
        }
    }
}

impl Ranked for PveGuestEntry {
    open spec fn ranks_before(self, other: Self) -> bool {
        self.vmid < other.vmid || (self.vmid == other.vmid && before(self.node@, other.node@))
    }

    fn is_before(&self, other: &Self) -> (r: bool) {
        self.vmid < other.vmid || (self.vmid == other.vmid && less(
            self.node.as_str(),
            other.node.as_str(),
        ))
    }
}

/// A guest as a remote lists it.
#[derive(Debug)]
pub struct ListedGuest {
    /// The guest's ID.
    pub vmid: u32,
    /// The guest's name, if it has one.
    pub name: Option<String>,
    /// The guest's status.
    pub status: String,
}

/// Which guests a remote is asked for.
#[derive(Debug, PartialEq)]
pub struct GuestQuery {
    /// The type of the guests.
    pub guest_type: GuestType,
    /// The node to ask, if not all of them.
    pub node: Option<String>,
}

/// The type of guest that a name stands for: containers for `lxc`, virtual machines otherwise.
pub open spec fn named_type(name: Seq<char>) -> GuestType {
    if lowered(name) == "lxc"@ {
        GuestType::Lxc
    } else {
        GuestType::Qemu
    }
}

/// Which guests a remote is asked for. Nothing is asked while no remote is chosen.
pub fn guest_query(remote: &str, node: Option<String>, guest_type: &str) -> (r: Option<GuestQuery>)
    ensures
        match r {
            None => remote@.len() == 0,
            Some(query) => remote@.len() > 0 && query.guest_type == named_type(guest_type@)
                && query.node == (match node {
                Some(name) => if is_blank(name@) {
                    None
                } else {
                    Some(name)
                },
                None => None,
            }),
        },
{
    if remote.is_empty() {
        return None;
    }
    let lower = to_lower(guest_type);
    let kind = if same(lower.as_str(), "lxc") {
        GuestType::Lxc
    } else {
        GuestType::Qemu
    };
    let asked = match node {
        Some(name) => if blank(name.as_str()) {
            None
        } else {
            Some(name)
        },
        None => None,
    };
    Some(GuestQuery { guest_type: kind, node: asked })
}

/// The entry of a listed guest.
pub open spec fn guest_view(query: GuestQuery, guest: ListedGuest) -> GuestView {
    GuestView {
        vmid: guest.vmid,
        name: match guest.name {
            Some(name) => name@,
            None => "-"@,
        },
        node: match query.node {
            Some(name) => name@,
            None => "-"@,
        },
        status: guest.status@,
        guest_type: crate::sync::guest_type_name(query.guest_type),
    }
}

pub open spec fn guest_views(v: Seq<PveGuestEntry>) -> Seq<GuestView> {
    Seq::new(v.len(), |i: int| v[i]@)
}

/// The unsorted entries of the listed guests.
pub open spec fn is_entries(
    query: GuestQuery,
    guests: Seq<ListedGuest>,
    entries: Seq<PveGuestEntry>,
) -> bool {
    guest_views(entries) == Seq::new(guests.len(), |i: int| guest_view(query, guests[i]))
}

/// The guests to choose from, by ID and node.
pub fn get_guest_list(query: &GuestQuery, guests: &Vec<ListedGuest>) -> (r: Vec<PveGuestEntry>)
    ensures
        exists|entries: Seq<PveGuestEntry>| #[trigger]
            is_entries(*query, guests@, entries) && r@ == sorted(entries),
{
    let mut entries: Vec<PveGuestEntry> = Vec::new();
    let mut i: usize = 0;
    while i < guests.len()
        invariant
            i <= guests.len(),
            entries.len() == i,
            forall|k: int| 0 <= k < i ==> (#[trigger] entries@[k])@ == guest_view(*query, guests@[k]),
        decreases guests.len() - i,
    {
        let name = match &guests[i].name {
            Some(name) => name.clone(),
            None => "-".to_owned(),
        };
        let node = match &query.node {
            Some(name) => name.clone(),
            None => "-".to_owned(),
        };
        let guest_type = match query.guest_type {
            GuestType::Qemu => "qemu".to_owned(),
            GuestType::Lxc => "lxc".to_owned(),
        };
        entries.push(
            PveGuestEntry {
                vmid: guests[i].vmid,
                name,
                node,
                status: guests[i].status.clone(),
                guest_type,
            },
        );
        i += 1;
    }
    assert(guest_views(entries@) =~= Seq::new(
        guests@.len(),
        |k: int| guest_view(*query, guests@[k]),
    ));
    assert(is_entries(*query, guests@, entries@));
    sort_ranked(entries)
}

/// Guests are ranked by an order, so that the list is in it.
pub proof fn law_guests_are_ranked()
    ensures
        crate::order::is_rank::<PveGuestEntry>(),
{
    assert forall|a: PveGuestEntry, b: PveGuestEntry| #[trigger] a.ranks_before(b) implies
        !b.ranks_before(a) by {
        if before(a.node@, b.node@) && before(b.node@, a.node@) {
            crate::order::lemma_before_transitive(a.node@, b.node@, a.node@);
            crate::order::lemma_before_irreflexive(a.node@);
        }
    }
    assert forall|a: PveGuestEntry, b: PveGuestEntry, c: PveGuestEntry|
        !(#[trigger] a.ranks_before(b)) && !(#[trigger] b.ranks_before(c)) implies !a.ranks_before(
        c,
    ) by {
        if a.vmid == b.vmid && b.vmid == c.vmid {
            crate::order::lemma_not_before_transitive(a.node@, b.node@, c.node@);
        }
    }
}

// ---------------------------------------------------------------------------------------------
// Nodes
// ---------------------------------------------------------------------------------------------

/// A node to choose, and its place in the list that the remote gave.
#[derive(Debug, PartialEq)]
pub struct NodeEntry {
    /// The node's name.
    pub name: String,
    /// The place in the remote's list.
    pub place: usize,
}

impl Ranked for NodeEntry {
    open spec fn ranks_before(self, other: Self) -> bool {
        before(self.name@, other.name@)
    }

    fn is_before(&self, other: &Self) -> (r: bool) {
        less(self.name.as_str(), other.name.as_str())
    }
}

/// The node can be chosen: it is neither left out nor the one that the guest is on.
pub open spec fn is_choosable(
    name: Seq<char>,
    excluded: Seq<Seq<char>>,
    source: Option<Seq<char>>,
) -> bool {
    !excluded.contains(name) && source != Some(name)
}

/// The choosable ones of the first nodes, with their places.
pub open spec fn choosable_nodes(
    nodes: Seq<String>,
    excluded: Seq<Seq<char>>,
    source: Option<Seq<char>>,
) -> Seq<NodeEntry>
    decreases nodes.len(),
{
    if nodes.len() == 0 {
        seq![]
    } else {
        let front = choosable_nodes(nodes.drop_last(), excluded, source);
        if is_choosable(nodes.last()@, excluded, source) {
            front.push(NodeEntry { name: nodes.last(), place: (nodes.len() - 1) as usize })
        } else {
            front
        }
    }
}

/// The nodes to choose from, by name.
pub fn get_node_list(nodes: &Vec<String>, excluded: &Vec<String>, source_node: &Option<String>) -> (r:
    Vec<NodeEntry>)
    ensures
        r@ == sorted(choosable_nodes(nodes@, texts(excluded@), opt_text(*source_node))),
{
    let ghost all = nodes@;
    let ghost out = texts(excluded@);
    let ghost source = opt_text(*source_node);
    let mut kept: Vec<NodeEntry> = Vec::new();
    let mut i: usize = 0;
    assert(all.take(0) =~= seq![]);
    assert(kept@ =~= choosable_nodes(all.take(0), out, source));
    while i < nodes.len()
        invariant
            i <= nodes.len(),
            all == nodes@,
            out == texts(excluded@),
            source == opt_text(*source_node),
            kept@ == choosable_nodes(all.take(i as int), out, source),
        decreases nodes.len() - i,
    {
        assert(all.take(i + 1).drop_last() =~= all.take(i as int));
        let is_source = match source_node {
            Some(name) => same(name.as_str(), nodes[i].as_str()),
            None => false,
        };
        if !one_of(excluded, nodes[i].as_str()) && !is_source {
            kept.push(NodeEntry { name: nodes[i].clone(), place: i });
        }
        i += 1;
    }
    assert(all.take(all.len() as int) =~= all);
    sort_ranked(kept)
}

/// The remote whose nodes are asked for. Nothing is asked for while no remote is chosen.
pub fn node_query(remote: &str) -> (r: Option<String>)
    ensures
        opt_text(r) == (if remote@.len() == 0 {
            None
        } else {
            Some(remote@)
        }),
{
    if remote.is_empty() {
        None
    } else {
        Some(remote.to_owned())
    }
}

/// Nodes are ranked by an order, so that the list is in it.
pub proof fn law_nodes_are_ranked()
    ensures
        crate::order::is_rank::<NodeEntry>(),
{
    assert forall|a: NodeEntry, b: NodeEntry| #[trigger] a.ranks_before(b) implies
        !b.ranks_before(a) by {
        if before(b.name@, a.name@) {
            crate::order::lemma_before_transitive(a.name@, b.name@, a.name@);
            crate::order::lemma_before_irreflexive(a.name@);
        }
    }
    assert forall|a: NodeEntry, b: NodeEntry, c: NodeEntry|
        !(#[trigger] a.ranks_before(b)) && !(#[trigger] b.ranks_before(c)) implies !a.ranks_before(
        c,
    ) by {
        crate::order::lemma_not_before_transitive(a.name@, b.name@, c.name@);
    }
}

/// No node that is left out, and not the guest's own one, is among those to choose from.
pub proof fn law_excluded_nodes_are_not_listed(
    nodes: Seq<String>,
    excluded: Seq<Seq<char>>,
    source: Option<Seq<char>>,
)
    ensures
        forall|i: int|
            0 <= i < choosable_nodes(nodes, excluded, source).len() ==> is_choosable(
                (#[trigger] choosable_nodes(nodes, excluded, source)[i]).name@,
                excluded,
                source,
            ),
    decreases nodes.len(),
{
    if nodes.len() > 0 {
        let front = choosable_nodes(nodes.drop_last(), excluded, source);
        let all = choosable_nodes(nodes, excluded, source);
        law_excluded_nodes_are_not_listed(nodes.drop_last(), excluded, source);
        assert forall|i: int| 0 <= i < all.len() implies is_choosable(
            (#[trigger] all[i]).name@,
            excluded,
            source,
        ) by {
            if i < front.len() {
                assert(all[i] == front[i]);
            }
        }
    }
}

/// Every node can be chosen that is neither left out nor the source's: a further node is added with
/// its own place, or changes nothing.
pub proof fn law_every_other_node_can_be_chosen(
    nodes: Seq<String>,
    node: String,
    excluded: Seq<Seq<char>>,
    source: Option<Seq<char>>,
)
    ensures
        choosable_nodes(seq![], excluded, source).len() == 0,
        !excluded.contains(node@) && source != Some(node@) ==> choosable_nodes(
            nodes.push(node),
            excluded,
            source,
        ) == choosable_nodes(nodes, excluded, source).push(
            NodeEntry { name: node, place: nodes.len() as usize },
        ),
        excluded.contains(node@) || source == Some(node@) ==> choosable_nodes(
            nodes.push(node),
            excluded,
            source,
        ) == choosable_nodes(nodes, excluded, source),
{
    assert(nodes.push(node).drop_last() =~= nodes);
}

/// Containers are asked for by their name in any letter case, and virtual machines otherwise.
pub proof fn law_containers_are_named(name: Seq<char>)
    ensures
        named_type("lxc"@) == GuestType::Lxc,
        named_type("LXC"@) == GuestType::Lxc,
        named_type(name) == GuestType::Lxc ==> name.len() == 3,
        named_type(lowered(name)) == named_type(name),
{
    reveal_strlit("lxc");
    reveal_strlit("LXC");
    assert(lowered("lxc"@) =~= "lxc"@);
    assert(lowered("LXC"@) =~= "lxc"@);
    crate::text::law_lowering_twice_is_lowering_once(name);
}

/// The entry of a guest shows what the remote lists of it, and a dash for what is not known.
pub proof fn law_entries_show_the_listed_guest(query: GuestQuery, guest: ListedGuest)
    ensures
        ({
            let shown = guest_view(query, guest);
            &&& shown.vmid == guest.vmid
            &&& shown.status == guest.status@
            &&& guest.name matches Some(name) ==> shown.name == name@
            &&& guest.name is None ==> shown.name == "-"@
            &&& query.node matches Some(node) ==> shown.node == node@
            &&& query.node is None ==> shown.node == "-"@
            &&& query.guest_type == GuestType::Lxc ==> shown.guest_type == "lxc"@
            &&& query.guest_type == GuestType::Qemu ==> shown.guest_type == "qemu"@
        }),
{
}

/// Every listed guest has an entry.
pub proof fn law_every_listed_guest_has_an_entry(
    query: GuestQuery,
    guests: Seq<ListedGuest>,
    entries: Seq<PveGuestEntry>,
    i: int,
)
    requires
        is_entries(query, guests, entries),
        0 <= i < guests.len(),
    ensures
        entries.len() == guests.len(),
        entries[i].vmid == guests[i].vmid,
        entries[i].status@ == guests[i].status@,
{
    assert(guest_views(entries).len() == guests.len());
    assert(guest_views(entries)[i] == guest_view(query, guests[i]));
}

} // verus!
