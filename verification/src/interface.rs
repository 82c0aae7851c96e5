//! The state of the user interface: the robots it shows, the requests that
//! await an answer from the supervisor, and what each message from the
//! supervisor changes.
use vstd::prelude::*;
use crate::shared::{builderbot, drone, pipuck, FrontEndRequest, TrackingUpdate};
use crate::status::{
    builderbot_updated, drone_updated, pipuck_updated, BuilderBotStatus, DroneStatus, PiPuckStatus,
};
use crate::wire::bytes_equal;

verus! {

/// The tabs of the user interface.
#[derive(Debug, PartialEq, Eq, Clone, Copy)]
pub enum Tab {
    BuilderBots,
    Drones,
    PiPucks,
    Experiment,
}

/// The position of the first of `ids` that is `id`, if any.
pub open spec fn first_index(ids: Seq<Seq<char>>, id: Seq<char>) -> Option<int> {
    if exists|i: int| 0 <= i < ids.len() && ids[i] == id {
        Some(choose|i: int| 0 <= i < ids.len() && ids[i] == id && forall|j: int| 0 <= j < i ==> ids[j] != id)
    } else {
        None
    }
}

/// The first position holding `id` is one that holds it, and no earlier
/// one does.
pub proof fn lemma_first_index(ids: Seq<Seq<char>>, id: Seq<char>)
    ensures
        first_index(ids, id) matches Some(i) ==> 0 <= i < ids.len() && ids[i] == id
            && forall|j: int| 0 <= j < i ==> ids[j] != id,
        first_index(ids, id) is None <==> !ids.contains(id),
{
    if exists|i: int| 0 <= i < ids.len() && ids[i] == id {
        let w = choose|i: int| 0 <= i < ids.len() && ids[i] == id;
        lemma_least_witness(ids, id, w);
    }
}

/// Where `id` occurs, there is a first position holding it.
proof fn lemma_least_witness(ids: Seq<Seq<char>>, id: Seq<char>, w: int)
    requires
        0 <= w < ids.len(),
        ids[w] == id,
    ensures
        exists|i: int| 0 <= i < ids.len() && ids[i] == id && forall|j: int| 0 <= j < i ==> ids[j] != id,
    decreases w,
{
    if exists|j: int| 0 <= j < w && ids[j] == id {
        let j = choose|j: int| 0 <= j < w && ids[j] == id;
        lemma_least_witness(ids, id, j);
    }
}

/// The names of the drones shown.
pub open spec fn drone_names(s: Seq<DroneStatus>) -> Seq<Seq<char>> {
    Seq::new(s.len(), |i: int| s[i].descriptor.id@)
}

/// The names of the BuilderBots shown.
pub open spec fn builderbot_names(s: Seq<BuilderBotStatus>) -> Seq<Seq<char>> {
    Seq::new(s.len(), |i: int| s[i].descriptor.id@)
}

/// The names of the Pi-Pucks shown.
pub open spec fn pipuck_names(s: Seq<PiPuckStatus>) -> Seq<Seq<char>> {
    Seq::new(s.len(), |i: int| s[i].descriptor.id@)
}

/// The position that a tracked body reports last among `updates` for the
/// identifier `id`; `pos` where none does (or the robot is not tracked).
pub open spec fn tracked_position(updates: Seq<TrackingUpdate>, id: Option<i32>, pos: [u32; 3]) -> [u32; 3]
    decreases updates.len(),
{
    if updates.len() == 0 {
        pos
    } else if id == Some(updates.last().id) {
        updates.last().position
    } else {
        tracked_position(updates.drop_last(), id, pos)
    }
}

/// The first position of `names` holding `id`.
fn find_in(names: &Vec<String>, id: &String) -> (res: Option<usize>)
    ensures
        match res {
            Some(i) => first_index(names@.map_values(|s: String| s@), id@) == Some(i as int),
            None => first_index(names@.map_values(|s: String| s@), id@) is None,
        },
{
    let ghost v = names@.map_values(|s: String| s@);
    let mut i: usize = 0;
    while i < names.len()
        invariant
            i <= names@.len(),
            v == names@.map_values(|s: String| s@),
            forall|j: int| 0 <= j < i ==> v[j] != id@,
        decreases names.len() - i,
    {
        assert(v[i as int] == names@[i as int]@);
        if names[i] == *id {
            proof {
                let c = choose|c: int| 0 <= c < v.len() && v[c] == id@ && forall|j: int| 0 <= j < c ==> v[j] != id@;
                assert(c == i as int);
            }
            return Some(i);
        }
        i = i + 1;
    }
    None
}

/// Adding a robot of a name not yet shown appends it; otherwise nothing
/// changes.
pub open spec fn robot_added<T>(o: Seq<T>, n: Seq<T>, names: Seq<Seq<char>>, id: Seq<char>, fresh: spec_fn(T) -> bool) -> bool {
    if first_index(names, id) is Some {
        n == o
    } else {
        n.len() == o.len() + 1 && n.take(o.len() as int) == o && fresh(n.last())
    }
}

/// Updating the robot of a name changes that robot alone, as `updated`
/// says; a name not shown changes nothing.
pub open spec fn robot_updated<T>(o: Seq<T>, n: Seq<T>, names: Seq<Seq<char>>, id: Seq<char>, updated: spec_fn(T, T) -> bool) -> bool {
    match first_index(names, id) {
        Some(i) => n.len() == o.len() && (forall|j: int| 0 <= j < o.len() && j != i ==> n[j] == o[j]) && updated(o[i], n[i]),
        None => n == o,
    }
}

/// Moves each drone to the position that the tracking system reports last
/// for its identifier among `updates`.
fn track_drones(robots: &mut Vec<DroneStatus>, updates: &Vec<TrackingUpdate>)
    ensures
        final(robots)@.len() == old(robots)@.len(),
        forall|j: int| 0 <= j < old(robots)@.len() ==> #[trigger] final(robots)@[j] == (DroneStatus {
            optitrack_pos: tracked_position(updates@, old(robots)@[j].descriptor.optitrack_id, old(robots)@[j].optitrack_pos),
            ..old(robots)@[j]
        }),
{
    let ghost orig = robots@;
    let mut k: usize = 0;
    while k < updates.len()
        invariant
            k <= updates@.len(),
            orig == old(robots)@,
            robots@.len() == orig.len(),
            forall|j: int| 0 <= j < orig.len() ==> #[trigger] robots@[j] == (DroneStatus {
                optitrack_pos: tracked_position(updates@.take(k as int), orig[j].descriptor.optitrack_id, orig[j].optitrack_pos),
                ..orig[j]
            }),
        decreases updates.len() - k,
    {
        let u = updates[k];
        assert(updates@.take(k + 1).drop_last() =~= updates@.take(k as int));
        assert(updates@.take(k + 1).last() == u);
        let mut i: usize = 0;
        while i < robots.len()
            invariant
                k < updates@.len(),
                u == updates@[k as int],
                i <= robots@.len(),
                orig == old(robots)@,
                robots@.len() == orig.len(),
                updates@.take(k + 1).drop_last() == updates@.take(k as int),
                updates@.take(k + 1).last() == u,
                forall|j: int| 0 <= j < i ==> #[trigger] robots@[j] == (DroneStatus {
                    optitrack_pos: tracked_position(updates@.take(k + 1), orig[j].descriptor.optitrack_id, orig[j].optitrack_pos),
                    ..orig[j]
                }),
                forall|j: int| i <= j < orig.len() ==> #[trigger] robots@[j] == (DroneStatus {
                    optitrack_pos: tracked_position(updates@.take(k as int), orig[j].descriptor.optitrack_id, orig[j].optitrack_pos),
                    ..orig[j]
                }),
            decreases robots.len() - i,
        {
            let tracked_here = match robots[i].descriptor.optitrack_id {
                Some(id) => id == u.id,
                None => false,
            };
            if tracked_here {
                let mut r = robots.remove(i);
                r.optitrack_pos = u.position;
                robots.insert(i, r);
            }
            i = i + 1;
        }
        k = k + 1;
    }
    assert(updates@.take(k as int) =~= updates@);
}

/// Moves each BuilderBot to the position that the tracking system reports last
/// for its identifier among `updates`.
fn track_builderbots(robots: &mut Vec<BuilderBotStatus>, updates: &Vec<TrackingUpdate>)
    ensures
        final(robots)@.len() == old(robots)@.len(),
        forall|j: int| 0 <= j < old(robots)@.len() ==> #[trigger] final(robots)@[j] == (BuilderBotStatus {
            optitrack_pos: tracked_position(updates@, old(robots)@[j].descriptor.optitrack_id, old(robots)@[j].optitrack_pos),
            ..old(robots)@[j]
        }),
{
    let ghost orig = robots@;
    let mut k: usize = 0;
    while k < updates.len()
        invariant
            k <= updates@.len(),
            orig == old(robots)@,
            robots@.len() == orig.len(),
            forall|j: int| 0 <= j < orig.len() ==> #[trigger] robots@[j] == (BuilderBotStatus {
                optitrack_pos: tracked_position(updates@.take(k as int), orig[j].descriptor.optitrack_id, orig[j].optitrack_pos),
                ..orig[j]
            }),
        decreases updates.len() - k,
    {
        let u = updates[k];
        assert(updates@.take(k + 1).drop_last() =~= updates@.take(k as int));
        assert(updates@.take(k + 1).last() == u);
        let mut i: usize = 0;
        while i < robots.len()
            invariant
                k < updates@.len(),
                u == updates@[k as int],
                i <= robots@.len(),
                orig == old(robots)@,
                robots@.len() == orig.len(),
                updates@.take(k + 1).drop_last() == updates@.take(k as int),
                updates@.take(k + 1).last() == u,
                forall|j: int| 0 <= j < i ==> #[trigger] robots@[j] == (BuilderBotStatus {
                    optitrack_pos: tracked_position(updates@.take(k + 1), orig[j].descriptor.optitrack_id, orig[j].optitrack_pos),
                    ..orig[j]
                }),
                forall|j: int| i <= j < orig.len() ==> #[trigger] robots@[j] == (BuilderBotStatus {
                    optitrack_pos: tracked_position(updates@.take(k as int), orig[j].descriptor.optitrack_id, orig[j].optitrack_pos),
                    ..orig[j]
                }),
            decreases robots.len() - i,
        {
            let tracked_here = match robots[i].descriptor.optitrack_id {
                Some(id) => id == u.id,
                None => false,
            };
            if tracked_here {
                let mut r = robots.remove(i);
                r.optitrack_pos = u.position;
                robots.insert(i, r);
            }
            i = i + 1;
        }
        k = k + 1;
    }
    assert(updates@.take(k as int) =~= updates@);
}

/// Moves each Pi-Puck to the position that the tracking system reports last
/// for its identifier among `updates`.
fn track_pipucks(robots: &mut Vec<PiPuckStatus>, updates: &Vec<TrackingUpdate>)
    ensures
        final(robots)@.len() == old(robots)@.len(),
        forall|j: int| 0 <= j < old(robots)@.len() ==> #[trigger] final(robots)@[j] == (PiPuckStatus {
            optitrack_pos: tracked_position(updates@, old(robots)@[j].descriptor.optitrack_id, old(robots)@[j].optitrack_pos),
            ..old(robots)@[j]
        }),
{
    let ghost orig = robots@;
    let mut k: usize = 0;
    while k < updates.len()
        invariant
            k <= updates@.len(),
            orig == old(robots)@,
            robots@.len() == orig.len(),
            forall|j: int| 0 <= j < orig.len() ==> #[trigger] robots@[j] == (PiPuckStatus {
                optitrack_pos: tracked_position(updates@.take(k as int), orig[j].descriptor.optitrack_id, orig[j].optitrack_pos),
                ..orig[j]
            }),
        decreases updates.len() - k,
    {
        let u = updates[k];
        assert(updates@.take(k + 1).drop_last() =~= updates@.take(k as int));
        assert(updates@.take(k + 1).last() == u);
        let mut i: usize = 0;
        while i < robots.len()
            invariant
                k < updates@.len(),
                u == updates@[k as int],
                i <= robots@.len(),
                orig == old(robots)@,
                robots@.len() == orig.len(),
                updates@.take(k + 1).drop_last() == updates@.take(k as int),
                updates@.take(k + 1).last() == u,
                forall|j: int| 0 <= j < i ==> #[trigger] robots@[j] == (PiPuckStatus {
                    optitrack_pos: tracked_position(updates@.take(k + 1), orig[j].descriptor.optitrack_id, orig[j].optitrack_pos),
                    ..orig[j]
                }),
                forall|j: int| i <= j < orig.len() ==> #[trigger] robots@[j] == (PiPuckStatus {
                    optitrack_pos: tracked_position(updates@.take(k as int), orig[j].descriptor.optitrack_id, orig[j].optitrack_pos),
                    ..orig[j]
                }),
            decreases robots.len() - i,
        {
            let tracked_here = match robots[i].descriptor.optitrack_id {
                Some(id) => id == u.id,
                None => false,
            };
            if tracked_here {
                let mut r = robots.remove(i);
                r.optitrack_pos = u.position;
                robots.insert(i, r);
            }
            i = i + 1;
        }
        k = k + 1;
    }
    assert(updates@.take(k as int) =~= updates@);
}

/// What a request of the supervisor does to the user interface: adding or
/// updating a robot changes that kind of robot alone, as the methods of
/// `Interface` say, and a tracking report moves every tracked robot.
pub open spec fn interface_applied(o: Interface, n: Interface, r: FrontEndRequest) -> bool {
    &&& n.active_tab == o.active_tab
    &&& n.connected == o.connected
    &&& n.pending == o.pending
    &&& match r {
        FrontEndRequest::AddBuilderBot(d) => n.drones == o.drones && n.pipucks == o.pipucks
            && robot_added(o.builderbots@, n.builderbots@, builderbot_names(o.builderbots@), d.id@,
                |b: BuilderBotStatus| b.descriptor == d),
        FrontEndRequest::UpdateBuilderBot(id, u) => n.drones == o.drones && n.pipucks == o.pipucks
            && robot_updated(o.builderbots@, n.builderbots@, builderbot_names(o.builderbots@), id@,
                |x: BuilderBotStatus, y: BuilderBotStatus| builderbot_updated(x, y, u)),
        FrontEndRequest::AddDrone(d) => n.builderbots == o.builderbots && n.pipucks == o.pipucks
            && robot_added(o.drones@, n.drones@, drone_names(o.drones@), d.id@, |x: DroneStatus| x.descriptor == d),
        FrontEndRequest::UpdateDrone(id, u) => n.builderbots == o.builderbots && n.pipucks == o.pipucks
            && robot_updated(o.drones@, n.drones@, drone_names(o.drones@), id@,
                |x: DroneStatus, y: DroneStatus| drone_updated(x, y, u)),
        FrontEndRequest::AddPiPuck(d) => n.builderbots == o.builderbots && n.drones == o.drones
            && robot_added(o.pipucks@, n.pipucks@, pipuck_names(o.pipucks@), d.id@, |x: PiPuckStatus| x.descriptor == d),
        FrontEndRequest::UpdatePiPuck(id, u) => n.builderbots == o.builderbots && n.drones == o.drones
            && robot_updated(o.pipucks@, n.pipucks@, pipuck_names(o.pipucks@), id@,
                |x: PiPuckStatus, y: PiPuckStatus| pipuck_updated(x, y, u)),
        FrontEndRequest::UpdateTrackingSystem(updates) => tracked_all(o, n, updates@),
        FrontEndRequest::UpdateExperiment(_) => true,
    }
}

/// Every robot moved to its last reported position; nothing else changed.
pub open spec fn tracked_all(o: Interface, n: Interface, updates: Seq<TrackingUpdate>) -> bool {
    &&& n.drones@.len() == o.drones@.len()
    &&& (forall|j: int| 0 <= j < o.drones@.len() ==> #[trigger] n.drones@[j] == (DroneStatus {
        optitrack_pos: tracked_position(updates, o.drones@[j].descriptor.optitrack_id, o.drones@[j].optitrack_pos),
        ..o.drones@[j]
    }))
    &&& n.builderbots@.len() == o.builderbots@.len()
    &&& (forall|j: int| 0 <= j < o.builderbots@.len() ==> #[trigger] n.builderbots@[j] == (BuilderBotStatus {
        optitrack_pos: tracked_position(updates, o.builderbots@[j].descriptor.optitrack_id, o.builderbots@[j].optitrack_pos),
        ..o.builderbots@[j]
    }))
    &&& n.pipucks@.len() == o.pipucks@.len()
    &&& (forall|j: int| 0 <= j < o.pipucks@.len() ==> #[trigger] n.pipucks@[j] == (PiPuckStatus {
        optitrack_pos: tracked_position(updates, o.pipucks@[j].descriptor.optitrack_id, o.pipucks@[j].optitrack_pos),
        ..o.pipucks@[j]
    }))
}

/// Camera frames are small enough to be encoded.
pub open spec fn frames_encodable(r: FrontEndRequest) -> bool {
    match r {
        FrontEndRequest::UpdateBuilderBot(_, builderbot::Update::Camera { result: Ok(b), .. }) => b@.len() <= usize::MAX / 2,
        FrontEndRequest::UpdateDrone(_, drone::Update::Camera { result: Ok(b), .. }) => b@.len() <= usize::MAX / 2,
        FrontEndRequest::UpdatePiPuck(_, pipuck::Update::Camera { result: Ok(b), .. }) => b@.len() <= usize::MAX / 2,
        _ => true,
    }
}

/// Once a drone is shown, its name is found, so adding a drone of the same
/// name again changes nothing: a robot is shown at most once.
pub proof fn lemma_drone_added_once(
    o: Seq<DroneStatus>,
    n: Seq<DroneStatus>,
    m: Seq<DroneStatus>,
    d: drone::Descriptor,
    e: drone::Descriptor,
)
    requires
        robot_added(o, n, drone_names(o), d.id@, |x: DroneStatus| x.descriptor == d),
        robot_added(n, m, drone_names(n), e.id@, |x: DroneStatus| x.descriptor == e),
        e.id@ == d.id@,
    ensures
        first_index(drone_names(n), d.id@) is Some,
        m == n,
{
    lemma_first_index(drone_names(o), d.id@);
    if first_index(drone_names(o), d.id@) is Some {
        let i = first_index(drone_names(o), d.id@)->0;
        assert(drone_names(n)[i] == d.id@);
    } else {
        let last = n.len() - 1;
        assert(drone_names(n)[last] == d.id@);
    }
    lemma_first_index(drone_names(n), d.id@);
}

/// An answer is delivered to its sender once: where a request was awaited
/// once, it is no longer awaited after its answer.
pub proof fn lemma_answer_once(pending: Seq<[u8; 16]>, i: int, id: [u8; 16])
    requires
        0 <= i < pending.len(),
        pending[i] == id,
        forall|j: int| 0 <= j < pending.len() && j != i ==> pending[j] != id,
    ensures
        !pending.remove(i).contains(id),
        pending.remove(i).len() == pending.len() - 1,
{
    let r = pending.remove(i);
    assert forall|k: int| 0 <= k < r.len() implies r[k] != id by {
        if k < i {
            assert(r[k] == pending[k]);
        } else {
            assert(r[k] == pending[k + 1]);
        }
    }
}

/// The state of the user interface.
#[derive(Debug)]
pub struct Interface {
    pub active_tab: Tab,
    pub connected: bool,
    pub pending: Vec<[u8; 16]>,
    pub builderbots: Vec<BuilderBotStatus>,
    pub drones: Vec<DroneStatus>,
    pub pipucks: Vec<PiPuckStatus>,
}

impl Interface {
    /// A user interface that shows the drones and knows no robot yet;
    /// `connected` tells whether its socket to the supervisor opened.
    pub fn new(connected: bool) -> (res: Interface)
        ensures
            res.active_tab == Tab::Drones,
            res.connected == connected,
            res.pending@.len() == 0,
            res.pending@.no_duplicates(),
            res.builderbots@.len() == 0,
            res.drones@.len() == 0,
            res.pipucks@.len() == 0,
    {
        Interface {
            active_tab: Tab::Drones,
            connected,
            pending: Vec::new(),
            builderbots: Vec::new(),
            drones: Vec::new(),
            pipucks: Vec::new(),
        }
    }

    /// Shows another tab.
    pub fn set_active_tab(&mut self, tab: Tab)
        ensures
            final(self).active_tab == tab,
            final(self).connected == old(self).connected,
            final(self).pending == old(self).pending,
            final(self).builderbots == old(self).builderbots,
            final(self).drones == old(self).drones,
            final(self).pipucks == old(self).pipucks,
    {
        self.active_tab = tab;
    }

    /// Whether an answer under `id` is awaited.
    fn awaits(&self, id: &[u8; 16]) -> (res: bool)
        ensures
            res == self.pending@.contains(*id),
    {
        let mut i: usize = 0;
        while i < self.pending.len()
            invariant
                i <= self.pending@.len(),
                forall|j: int| 0 <= j < i ==> self.pending@[j] != *id,
            decreases self.pending.len() - i,
        {
            if bytes_equal(&self.pending[i], id) {
                return true;
            }
            i = i + 1;
        }
        false
    }

    /// Sends a request under the identifier `id`: refused while the socket
    /// is closed; an answer is awaited where the sender wants one, once per
    /// identifier (a second request under an awaited identifier takes its
    /// place).
    pub fn send_request(&mut self, id: [u8; 16], wants_answer: bool) -> (res: Result<(), String>)
        ensures
            res is Ok <==> old(self).connected,
            res matches Err(m) ==> m@ == "Could not send request: Disconnected"@,
            final(self).pending@ == if old(self).connected && wants_answer && !old(self).pending@.contains(id) {
                old(self).pending@.push(id)
            } else {
                old(self).pending@
            },
            old(self).pending@.no_duplicates() ==> final(self).pending@.no_duplicates(),
            final(self).active_tab == old(self).active_tab,
            final(self).connected == old(self).connected,
            final(self).builderbots == old(self).builderbots,
            final(self).drones == old(self).drones,
            final(self).pipucks == old(self).pipucks,
    {
        if !self.connected {
            let m = String::from_str("Could not send request: Disconnected");
            proof { reveal_strlit("Could not send request: Disconnected"); }
            return Err(m);
        }
        if wants_answer && !self.awaits(&id) {
            self.pending.push(id);
        }
        Ok(())
    }

    /// An answer from the supervisor: whether a request awaited it (its
    /// sender is then told the result). The first awaiting entry is
    /// removed.
    pub fn handle_response(&mut self, id: [u8; 16]) -> (res: bool)
        ensures
            res == old(self).pending@.contains(id),
            res ==> exists|i: int| 0 <= i < old(self).pending@.len() && old(self).pending@[i] == id
                && (forall|j: int| 0 <= j < i ==> old(self).pending@[j] != id)
                && final(self).pending@ == old(self).pending@.remove(i),
            !res ==> final(self).pending@ == old(self).pending@,
            old(self).pending@.no_duplicates() ==> final(self).pending@.no_duplicates() && !final(self).pending@.contains(id),
            final(self).active_tab == old(self).active_tab,
            final(self).connected == old(self).connected,
            final(self).builderbots == old(self).builderbots,
            final(self).drones == old(self).drones,
            final(self).pipucks == old(self).pipucks,
    {
        let mut i: usize = 0;
        while i < self.pending.len()
            invariant
                i <= self.pending@.len(),
                self.pending@ == old(self).pending@,
                self.builderbots == old(self).builderbots,
                self.drones == old(self).drones,
                self.pipucks == old(self).pipucks,
                self.active_tab == old(self).active_tab,
                self.connected == old(self).connected,
                forall|j: int| 0 <= j < i ==> self.pending@[j] != id,
            decreases self.pending.len() - i,
        {
            if bytes_equal(&self.pending[i], &id) {
                self.pending.remove(i);
                proof {
                    if old(self).pending@.no_duplicates() {
                        lemma_answer_once(old(self).pending@, i as int, id);
                        let r = old(self).pending@.remove(i as int);
                        assert forall|a: int, b: int| 0 <= a < r.len() && 0 <= b < r.len() && a != b implies r[a] != r[b] by {
                            let oa = if a < i { a } else { a + 1 };
                            let ob = if b < i { b } else { b + 1 };
                            assert(r[a] == old(self).pending@[oa]);
                            assert(r[b] == old(self).pending@[ob]);
                        }
                    }
                }
                return true;
            }
            i = i + 1;
        }
        assert(!old(self).pending@.contains(id));
        false
    }

    /// Shows a drone, unless one of that name is shown already.
    pub fn add_drone(&mut self, descriptor: drone::Descriptor)
        ensures
            robot_added(old(self).drones@, final(self).drones@, drone_names(old(self).drones@), descriptor.id@,
                |d: DroneStatus| d.descriptor == descriptor),
            final(self).builderbots == old(self).builderbots,
            final(self).pipucks == old(self).pipucks,
            final(self).pending == old(self).pending,
            final(self).active_tab == old(self).active_tab,
            final(self).connected == old(self).connected,
    {
        let names = self.drone_name_list();
        if find_in(&names, &descriptor.id).is_none() {
            let ghost d = descriptor;
            self.drones.push(DroneStatus::new(descriptor));
            assert(self.drones@.take(old(self).drones@.len() as int) =~= old(self).drones@);
            assert(self.drones@.last().descriptor == d);
        }
    }

    /// Applies an update to the drone of that name, if it is shown.
    pub fn update_drone(&mut self, id: &String, update: drone::Update)
        requires
            update matches drone::Update::Camera { result: Ok(b), .. } ==> b@.len() <= usize::MAX / 2,
        ensures
            robot_updated(old(self).drones@, final(self).drones@, drone_names(old(self).drones@), id@,
                |o: DroneStatus, n: DroneStatus| drone_updated(o, n, update)),
            final(self).builderbots == old(self).builderbots,
            final(self).pipucks == old(self).pipucks,
            final(self).pending == old(self).pending,
            final(self).active_tab == old(self).active_tab,
            final(self).connected == old(self).connected,
    {
        let names = self.drone_name_list();
        proof { lemma_first_index(drone_names(self.drones@), id@); }
        match find_in(&names, id) {
            Some(i) => {
                let mut status = self.drones.remove(i);
                status.update(update);
                self.drones.insert(i, status);
            },
            None => {},
        }
    }

    /// The names of the drones shown.
    fn drone_name_list(&self) -> (res: Vec<String>)
        ensures
            res@.map_values(|s: String| s@) == drone_names(self.drones@),
    {
        let mut res: Vec<String> = Vec::new();
        let mut i: usize = 0;
        while i < self.drones.len()
            invariant
                i <= self.drones@.len(),
                res@.map_values(|s: String| s@) =~= drone_names(self.drones@).take(i as int),
            decreases self.drones.len() - i,
        {
            let ghost before = res@;
            res.push(self.drones[i].descriptor.id.clone());
            assert(res@.map_values(|s: String| s@) =~= before.map_values(|s: String| s@).push(self.drones@[i as int].descriptor.id@));
            i = i + 1;
        }
        assert(res@.map_values(|s: String| s@) =~= drone_names(self.drones@));
        res
    }

    /// Shows a BuilderBot, unless one of that name is shown already.
    pub fn add_builderbot(&mut self, descriptor: builderbot::Descriptor)
        ensures
            robot_added(old(self).builderbots@, final(self).builderbots@, builderbot_names(old(self).builderbots@), descriptor.id@,
                |d: BuilderBotStatus| d.descriptor == descriptor),
            final(self).drones == old(self).drones,
            final(self).pipucks == old(self).pipucks,
            final(self).pending == old(self).pending,
            final(self).active_tab == old(self).active_tab,
            final(self).connected == old(self).connected,
    {
        let names = self.builderbot_name_list();
        if find_in(&names, &descriptor.id).is_none() {
            let ghost d = descriptor;
            self.builderbots.push(BuilderBotStatus::new(descriptor));
            assert(self.builderbots@.take(old(self).builderbots@.len() as int) =~= old(self).builderbots@);
            assert(self.builderbots@.last().descriptor == d);
        }
    }

    /// Applies an update to the BuilderBot of that name, if it is shown.
    pub fn update_builderbot(&mut self, id: &String, update: builderbot::Update)
        requires
            update matches builderbot::Update::Camera { result: Ok(b), .. } ==> b@.len() <= usize::MAX / 2,
        ensures
            robot_updated(old(self).builderbots@, final(self).builderbots@, builderbot_names(old(self).builderbots@), id@,
                |o: BuilderBotStatus, n: BuilderBotStatus| builderbot_updated(o, n, update)),
            final(self).drones == old(self).drones,
            final(self).pipucks == old(self).pipucks,
            final(self).pending == old(self).pending,
            final(self).active_tab == old(self).active_tab,
            final(self).connected == old(self).connected,
    {
        let names = self.builderbot_name_list();
        proof { lemma_first_index(builderbot_names(self.builderbots@), id@); }
        match find_in(&names, id) {
            Some(i) => {
                let mut status = self.builderbots.remove(i);
                status.update(update);
                self.builderbots.insert(i, status);
            },
            None => {},
        }
    }

    /// The names of the BuilderBots shown.
    fn builderbot_name_list(&self) -> (res: Vec<String>)
        ensures
            res@.map_values(|s: String| s@) == builderbot_names(self.builderbots@),
    {
        let mut res: Vec<String> = Vec::new();
        let mut i: usize = 0;
        while i < self.builderbots.len()
            invariant
                i <= self.builderbots@.len(),
                res@.map_values(|s: String| s@) =~= builderbot_names(self.builderbots@).take(i as int),
            decreases self.builderbots.len() - i,
        {
            let ghost before = res@;
            res.push(self.builderbots[i].descriptor.id.clone());
            assert(res@.map_values(|s: String| s@) =~= before.map_values(|s: String| s@).push(self.builderbots@[i as int].descriptor.id@));
            i = i + 1;
        }
        assert(res@.map_values(|s: String| s@) =~= builderbot_names(self.builderbots@));
        res
    }

    /// Shows a Pi-Puck, unless one of that name is shown already.
    pub fn add_pipuck(&mut self, descriptor: pipuck::Descriptor)
        ensures
            robot_added(old(self).pipucks@, final(self).pipucks@, pipuck_names(old(self).pipucks@), descriptor.id@,
                |d: PiPuckStatus| d.descriptor == descriptor),
            final(self).builderbots == old(self).builderbots,
            final(self).drones == old(self).drones,
            final(self).pending == old(self).pending,
            final(self).active_tab == old(self).active_tab,
            final(self).connected == old(self).connected,
    {
        let names = self.pipuck_name_list();
        if find_in(&names, &descriptor.id).is_none() {
            let ghost d = descriptor;
            self.pipucks.push(PiPuckStatus::new(descriptor));
            assert(self.pipucks@.take(old(self).pipucks@.len() as int) =~= old(self).pipucks@);
            assert(self.pipucks@.last().descriptor == d);
        }
    }

    /// Applies an update to the Pi-Puck of that name, if it is shown.
    pub fn update_pipuck(&mut self, id: &String, update: pipuck::Update)
        requires
            update matches pipuck::Update::Camera { result: Ok(b), .. } ==> b@.len() <= usize::MAX / 2,
        ensures
            robot_updated(old(self).pipucks@, final(self).pipucks@, pipuck_names(old(self).pipucks@), id@,
                |o: PiPuckStatus, n: PiPuckStatus| pipuck_updated(o, n, update)),
            final(self).builderbots == old(self).builderbots,
            final(self).drones == old(self).drones,
            final(self).pending == old(self).pending,
            final(self).active_tab == old(self).active_tab,
            final(self).connected == old(self).connected,
    {
        let names = self.pipuck_name_list();
        proof { lemma_first_index(pipuck_names(self.pipucks@), id@); }
        match find_in(&names, id) {
            Some(i) => {
                let mut status = self.pipucks.remove(i);
                status.update(update);
                self.pipucks.insert(i, status);
            },
            None => {},
        }
    }

    /// The names of the Pi-Pucks shown.
    fn pipuck_name_list(&self) -> (res: Vec<String>)
        ensures
            res@.map_values(|s: String| s@) == pipuck_names(self.pipucks@),
    {
        let mut res: Vec<String> = Vec::new();
        let mut i: usize = 0;
        while i < self.pipucks.len()
            invariant
                i <= self.pipucks@.len(),
                res@.map_values(|s: String| s@) =~= pipuck_names(self.pipucks@).take(i as int),
            decreases self.pipucks.len() - i,
        {
            let ghost before = res@;
            res.push(self.pipucks[i].descriptor.id.clone());
            assert(res@.map_values(|s: String| s@) =~= before.map_values(|s: String| s@).push(self.pipucks@[i as int].descriptor.id@));
            i = i + 1;
        }
        assert(res@.map_values(|s: String| s@) =~= pipuck_names(self.pipucks@));
        res
    }

    /// Carries out a request of the supervisor; the interface is then
    /// drawn again. Experiment updates are not handled by the interface.
    pub fn apply(&mut self, request: FrontEndRequest) -> (render: bool)
        requires
            !(request is UpdateExperiment),
            frames_encodable(request),
        ensures
            render,
            interface_applied(*old(self), *final(self), request),
    {
        match request {
            FrontEndRequest::AddBuilderBot(d) => self.add_builderbot(d),
            FrontEndRequest::UpdateBuilderBot(id, u) => self.update_builderbot(&id, u),
            FrontEndRequest::AddDrone(d) => self.add_drone(d),
            FrontEndRequest::UpdateDrone(id, u) => self.update_drone(&id, u),
            FrontEndRequest::AddPiPuck(d) => self.add_pipuck(d),
            FrontEndRequest::UpdatePiPuck(id, u) => self.update_pipuck(&id, u),
            FrontEndRequest::UpdateTrackingSystem(updates) => self.track(&updates),
            FrontEndRequest::UpdateExperiment(_) => {},
        }
        true
    }

    /// Moves every tracked robot to the position that the tracking system
    /// reports last for it.
    pub fn track(&mut self, updates: &Vec<TrackingUpdate>)
        ensures
            tracked_all(*old(self), *final(self), updates@),
            final(self).active_tab == old(self).active_tab,
            final(self).connected == old(self).connected,
            final(self).pending == old(self).pending,
    {
        track_drones(&mut self.drones, updates);
        track_builderbots(&mut self.builderbots, updates);
        track_pipucks(&mut self.pipucks, updates);
    }
}

} // verus!
