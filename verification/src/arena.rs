//! The arena: which robot a device that appears on the network belongs to,
//! where a robot's actions are sent, and the order in which an experiment is
//! started on all robots and how its failure is handled.
use vstd::prelude::*;
use crate::shared::{builderbot, drone, pipuck};
use crate::wire::bytes_equal;
use crate::software::{config_checked, software_valid, Error as SoftwareError, Software};

verus! {

/// The positions, in order, of the addresses in `keys` that equal `mac`.
pub open spec fn matching(keys: Seq<[u8; 6]>, mac: [u8; 6]) -> Seq<usize>
    decreases keys.len(),
{
    if keys.len() == 0 {
        Seq::empty()
    } else if keys.last() == mac {
        matching(keys.drop_last(), mac).push((keys.len() - 1) as usize)
    } else {
        matching(keys.drop_last(), mac)
    }
}

/// The claims are exactly the positions of `mac` in `keys`, each once and
/// in increasing order.
pub proof fn lemma_matching_exact(keys: Seq<[u8; 6]>, mac: [u8; 6])
    requires
        keys.len() <= usize::MAX,
    ensures
        forall|k: int| 0 <= k < matching(keys, mac).len() ==>
            (#[trigger] matching(keys, mac)[k]) < keys.len() && keys[matching(keys, mac)[k] as int] == mac,
        forall|i: int| 0 <= i < keys.len() && keys[i] == mac ==> matching(keys, mac).contains(i as usize),
        forall|k: int, l: int| 0 <= k < l < matching(keys, mac).len() ==> matching(keys, mac)[k] < matching(keys, mac)[l],
    decreases keys.len(),
{
    if keys.len() > 0 {
        let pre = keys.drop_last();
        lemma_matching_exact(pre, mac);
        let m = matching(pre, mac);
        if keys.last() == mac {
            let full = m.push((keys.len() - 1) as usize);
            assert(full =~= matching(keys, mac));
            assert forall|i: int| 0 <= i < keys.len() && keys[i] == mac implies full.contains(i as usize) by {
                if i < keys.len() - 1 {
                    assert(pre[i] == keys[i]);
                    let k = choose|k: int| 0 <= k < m.len() && m[k] == i as usize;
                    assert(full[k] == i as usize);
                } else {
                    assert(full[m.len() as int] == i as usize);
                }
            }
        } else {
            assert forall|i: int| 0 <= i < keys.len() && keys[i] == mac implies m.contains(i as usize) by {
                if i < keys.len() - 1 {
                    assert(pre[i] == keys[i]);
                }
            }
        }
    }
}

/// The Xbee addresses of the drones.
pub open spec fn xbee_macs(drones: Seq<drone::Descriptor>) -> Seq<[u8; 6]> {
    Seq::new(drones.len(), |i: int| drones[i].xbee_macaddr)
}

/// The Up Core addresses of the drones.
pub open spec fn upcore_macs(drones: Seq<drone::Descriptor>) -> Seq<[u8; 6]> {
    Seq::new(drones.len(), |i: int| drones[i].upcore_macaddr)
}

/// The Raspberry Pi addresses of the Pi-Pucks.
pub open spec fn rpi_macs(pipucks: Seq<pipuck::Descriptor>) -> Seq<[u8; 6]> {
    Seq::new(pipucks.len(), |i: int| pipucks[i].rpi_macaddr)
}

/// The DuoVero addresses of the BuilderBots.
pub open spec fn duovero_macs(builderbots: Seq<builderbot::Descriptor>) -> Seq<[u8; 6]> {
    Seq::new(builderbots.len(), |i: int| builderbots[i].duovero_macaddr)
}

/// The positions of `keys` whose address is `mac`.
fn matching_positions(keys: &Vec<[u8; 6]>, mac: &[u8; 6]) -> (res: Vec<usize>)
    ensures
        res@ == matching(keys@, *mac),
{
    let mut res: Vec<usize> = Vec::new();
    let mut i: usize = 0;
    while i < keys.len()
        invariant
            i <= keys@.len(),
            res@ == matching(keys@.take(i as int), *mac),
        decreases keys.len() - i,
    {
        assert(keys@.take(i + 1).drop_last() =~= keys@.take(i as int));
        if bytes_equal(&keys[i], mac) {
            res.push(i);
        }
        i = i + 1;
    }
    assert(keys@.take(i as int) =~= keys@);
    res
}

/// How many robots claim a device.
#[derive(Debug, PartialEq, Eq, Clone, Copy)]
pub enum Association {
    /// Exactly one, at this position.
    One(usize),
    /// Two or more: the device is left alone.
    Many,
    /// None.
    Unassociated,
}

/// The association that a list of claims amounts to.
pub open spec fn association_spec(claims: Seq<usize>) -> Association {
    if claims.len() == 0 {
        Association::Unassociated
    } else if claims.len() == 1 {
        Association::One(claims[0])
    } else {
        Association::Many
    }
}

/// Tells one claim from several and from none.
pub fn association(claims: &Vec<usize>) -> (res: Association)
    ensures
        res == association_spec(claims@),
{
    if claims.len() == 0 {
        Association::Unassociated
    } else if claims.len() == 1 {
        Association::One(claims[0])
    } else {
        Association::Many
    }
}

/// A kind of robot.
#[derive(Debug, PartialEq, Eq, Clone, Copy)]
pub enum RobotKind {
    BuilderBot,
    Drone,
    PiPuck,
}

/// What becomes of a Fernbedienung service that appears on the network.
#[derive(Debug, PartialEq, Eq, Clone, Copy)]
pub enum FernbedienungAssociation {
    /// It belongs to the robot of this kind at this position.
    Robot(RobotKind, usize),
    /// Several robots of this kind claim it.
    Ambiguous(RobotKind),
    /// No robot claims it.
    Unassociated,
}

/// A Fernbedienung service is offered first to the drones, then to the
/// Pi-Pucks, then to the BuilderBots; the first kind with any claim decides.
pub open spec fn fernbedienung_association_spec(
    drones: Seq<usize>,
    pipucks: Seq<usize>,
    builderbots: Seq<usize>,
) -> FernbedienungAssociation {
    match association_spec(drones) {
        Association::One(i) => FernbedienungAssociation::Robot(RobotKind::Drone, i),
        Association::Many => FernbedienungAssociation::Ambiguous(RobotKind::Drone),
        Association::Unassociated => match association_spec(pipucks) {
            Association::One(i) => FernbedienungAssociation::Robot(RobotKind::PiPuck, i),
            Association::Many => FernbedienungAssociation::Ambiguous(RobotKind::PiPuck),
            Association::Unassociated => match association_spec(builderbots) {
                Association::One(i) => FernbedienungAssociation::Robot(RobotKind::BuilderBot, i),
                Association::Many => FernbedienungAssociation::Ambiguous(RobotKind::BuilderBot),
                Association::Unassociated => FernbedienungAssociation::Unassociated,
            },
        },
    }
}

/// A Fernbedienung service goes to a Pi-Puck only where no drone claims
/// it, and to a BuilderBot only where neither a drone nor a Pi-Puck does;
/// it is left alone where two robots of the deciding kind claim it.
pub proof fn lemma_fernbedienung_priority(drones: Seq<usize>, pipucks: Seq<usize>, builderbots: Seq<usize>)
    ensures
        fernbedienung_association_spec(drones, pipucks, builderbots) matches FernbedienungAssociation::Robot(RobotKind::PiPuck, _)
            ==> drones.len() == 0 && pipucks.len() == 1,
        fernbedienung_association_spec(drones, pipucks, builderbots) matches FernbedienungAssociation::Robot(RobotKind::BuilderBot, _)
            ==> drones.len() == 0 && pipucks.len() == 0 && builderbots.len() == 1,
        drones.len() >= 2 ==> fernbedienung_association_spec(drones, pipucks, builderbots)
            == FernbedienungAssociation::Ambiguous(RobotKind::Drone),
        fernbedienung_association_spec(drones, pipucks, builderbots) == FernbedienungAssociation::Unassociated
            <==> drones.len() == 0 && pipucks.len() == 0 && builderbots.len() == 0,
{
}

/// A Fernbedienung service is handed only to its owner: where it goes to
/// the robot at position `i` of a kind, that robot's address is the
/// service's, and it is the only robot of that kind with that address;
/// it goes to a Pi-Puck only where no drone has the address, and to a
/// BuilderBot only where no drone and no Pi-Puck has it.
pub proof fn lemma_fernbedienung_goes_to_owner(
    drones: Seq<drone::Descriptor>,
    pipucks: Seq<pipuck::Descriptor>,
    builderbots: Seq<builderbot::Descriptor>,
    mac: [u8; 6],
)
    requires
        drones.len() <= usize::MAX,
        pipucks.len() <= usize::MAX,
        builderbots.len() <= usize::MAX,
    ensures
        ({
            let res = fernbedienung_association_spec(
                matching(upcore_macs(drones), mac),
                matching(rpi_macs(pipucks), mac),
                matching(duovero_macs(builderbots), mac),
            );
            &&& res matches FernbedienungAssociation::Robot(RobotKind::Drone, i) ==> i < drones.len()
                && drones[i as int].upcore_macaddr == mac
                && forall|j: int| 0 <= j < drones.len() && j != i ==> drones[j].upcore_macaddr != mac
            &&& res matches FernbedienungAssociation::Robot(RobotKind::PiPuck, i) ==> i < pipucks.len()
                && pipucks[i as int].rpi_macaddr == mac
                && (forall|j: int| 0 <= j < pipucks.len() && j != i ==> pipucks[j].rpi_macaddr != mac)
                && forall|j: int| 0 <= j < drones.len() ==> drones[j].upcore_macaddr != mac
            &&& res matches FernbedienungAssociation::Robot(RobotKind::BuilderBot, i) ==> i < builderbots.len()
                && builderbots[i as int].duovero_macaddr == mac
                && (forall|j: int| 0 <= j < builderbots.len() && j != i ==> builderbots[j].duovero_macaddr != mac)
                && (forall|j: int| 0 <= j < drones.len() ==> drones[j].upcore_macaddr != mac)
                && forall|j: int| 0 <= j < pipucks.len() ==> pipucks[j].rpi_macaddr != mac
        }),
{
    let dk = upcore_macs(drones);
    let pk = rpi_macs(pipucks);
    let bk = duovero_macs(builderbots);
    lemma_matching_exact(dk, mac);
    lemma_matching_exact(pk, mac);
    lemma_matching_exact(bk, mac);
    let dm = matching(dk, mac);
    let pm = matching(pk, mac);
    let bm = matching(bk, mac);
    assert forall|j: int| 0 <= j < drones.len() && drones[j].upcore_macaddr == mac implies dm.contains(j as usize) by {
        assert(dk[j] == mac);
    }
    assert forall|j: int| 0 <= j < pipucks.len() && pipucks[j].rpi_macaddr == mac implies pm.contains(j as usize) by {
        assert(pk[j] == mac);
    }
    assert forall|j: int| 0 <= j < builderbots.len() && builderbots[j].duovero_macaddr == mac implies bm.contains(j as usize) by {
        assert(bk[j] == mac);
    }
    if dm.len() == 1 {
        assert(dk[dm[0] as int] == mac);
        assert forall|j: int| 0 <= j < drones.len() && j != dm[0] implies drones[j].upcore_macaddr != mac by {
            if drones[j].upcore_macaddr == mac {
                assert(dm.contains(j as usize));
            }
        }
    }
    if pm.len() == 1 {
        assert(pk[pm[0] as int] == mac);
        assert forall|j: int| 0 <= j < pipucks.len() && j != pm[0] implies pipucks[j].rpi_macaddr != mac by {
            if pipucks[j].rpi_macaddr == mac {
                assert(pm.contains(j as usize));
            }
        }
    }
    if bm.len() == 1 {
        assert(bk[bm[0] as int] == mac);
        assert forall|j: int| 0 <= j < builderbots.len() && j != bm[0] implies builderbots[j].duovero_macaddr != mac by {
            if builderbots[j].duovero_macaddr == mac {
                assert(bm.contains(j as usize));
            }
        }
    }
}

/// The position of the first robot named `id`, if any.
pub open spec fn first_named(ids: Seq<Seq<char>>, id: Seq<char>) -> Option<int> {
    if exists|i: int| 0 <= i < ids.len() && ids[i] == id {
        Some(choose|i: int| 0 <= i < ids.len() && ids[i] == id && forall|j: int| 0 <= j < i ==> ids[j] != id)
    } else {
        None
    }
}

/// The names of the drones.
pub open spec fn drone_ids(drones: Seq<drone::Descriptor>) -> Seq<Seq<char>> {
    Seq::new(drones.len(), |i: int| drones[i].id@)
}

/// The names of the Pi-Pucks.
pub open spec fn pipuck_ids(pipucks: Seq<pipuck::Descriptor>) -> Seq<Seq<char>> {
    Seq::new(pipucks.len(), |i: int| pipucks[i].id@)
}

/// The names of the BuilderBots.
pub open spec fn builderbot_ids(builderbots: Seq<builderbot::Descriptor>) -> Seq<Seq<char>> {
    Seq::new(builderbots.len(), |i: int| builderbots[i].id@)
}

/// The first position of `ids` holding `id`.
fn find_name(ids: &Vec<String>, id: &String) -> (res: Option<usize>)
    ensures
        match res {
            Some(i) => first_named(ids@.map_values(|s: String| s@), id@) == Some(i as int),
            None => first_named(ids@.map_values(|s: String| s@), id@) is None,
        },
{
    let ghost names = ids@.map_values(|s: String| s@);
    let mut i: usize = 0;
    while i < ids.len()
        invariant
            i <= ids@.len(),
            names == ids@.map_values(|s: String| s@),
            forall|j: int| 0 <= j < i ==> names[j] != id@,
        decreases ids.len() - i,
    {
        assert(names[i as int] == ids@[i as int]@);
        if ids[i] == *id {
            proof {
                let c = choose|c: int| 0 <= c < names.len() && names[c] == id@
                    && forall|j: int| 0 <= j < c ==> names[j] != id@;
                assert(c == i as int);
            }
            return Some(i);
        }
        i = i + 1;
    }
    None
}

/// The robots of the arena, by kind.
#[derive(Debug)]
pub struct Arena {
    pub builderbots: Vec<builderbot::Descriptor>,
    pub drones: Vec<drone::Descriptor>,
    pub pipucks: Vec<pipuck::Descriptor>,
}

impl Arena {
    /// The drones whose Xbee has this address.
    pub fn associate_xbee_device(&self, mac: [u8; 6]) -> (res: Vec<usize>)
        ensures
            res@ == matching(xbee_macs(self.drones@), mac),
    {
        let mut keys: Vec<[u8; 6]> = Vec::new();
        let mut i: usize = 0;
        while i < self.drones.len()
            invariant
                i <= self.drones@.len(),
                keys@ =~= xbee_macs(self.drones@).take(i as int),
            decreases self.drones.len() - i,
        {
            keys.push(self.drones[i].xbee_macaddr);
            i = i + 1;
        }
        assert(keys@ =~= xbee_macs(self.drones@));
        matching_positions(&keys, &mac)
    }

    /// The drones whose Up Core has this address.
    pub fn associate_fernbedienung_device_with_drone(&self, mac: [u8; 6]) -> (res: Vec<usize>)
        ensures
            res@ == matching(upcore_macs(self.drones@), mac),
    {
        let mut keys: Vec<[u8; 6]> = Vec::new();
        let mut i: usize = 0;
        while i < self.drones.len()
            invariant
                i <= self.drones@.len(),
                keys@ =~= upcore_macs(self.drones@).take(i as int),
            decreases self.drones.len() - i,
        {
            keys.push(self.drones[i].upcore_macaddr);
            i = i + 1;
        }
        assert(keys@ =~= upcore_macs(self.drones@));
        matching_positions(&keys, &mac)
    }

    /// The Pi-Pucks whose Raspberry Pi has this address.
    pub fn associate_fernbedienung_device_with_pipuck(&self, mac: [u8; 6]) -> (res: Vec<usize>)
        ensures
            res@ == matching(rpi_macs(self.pipucks@), mac),
    {
        let mut keys: Vec<[u8; 6]> = Vec::new();
        let mut i: usize = 0;
        while i < self.pipucks.len()
            invariant
                i <= self.pipucks@.len(),
                keys@ =~= rpi_macs(self.pipucks@).take(i as int),
            decreases self.pipucks.len() - i,
        {
            keys.push(self.pipucks[i].rpi_macaddr);
            i = i + 1;
        }
        assert(keys@ =~= rpi_macs(self.pipucks@));
        matching_positions(&keys, &mac)
    }

    /// The BuilderBots whose DuoVero has this address.
    pub fn associate_fernbedienung_device_with_builderbot(&self, mac: [u8; 6]) -> (res: Vec<usize>)
        ensures
            res@ == matching(duovero_macs(self.builderbots@), mac),
    {
        let mut keys: Vec<[u8; 6]> = Vec::new();
        let mut i: usize = 0;
        while i < self.builderbots.len()
            invariant
                i <= self.builderbots@.len(),
                keys@ =~= duovero_macs(self.builderbots@).take(i as int),
            decreases self.builderbots.len() - i,
        {
            keys.push(self.builderbots[i].duovero_macaddr);
            i = i + 1;
        }
        assert(keys@ =~= duovero_macs(self.builderbots@));
        matching_positions(&keys, &mac)
    }

    /// The drone that an Xbee with this address belongs to.
    pub fn xbee_association(&self, mac: [u8; 6]) -> (res: Association)
        ensures
            res == association_spec(matching(xbee_macs(self.drones@), mac)),
    {
        let claims = self.associate_xbee_device(mac);
        association(&claims)
    }

    /// The robot that a Fernbedienung service with this address belongs
    /// to: drones are asked first, then Pi-Pucks, then BuilderBots.
    pub fn fernbedienung_association(&self, mac: [u8; 6]) -> (res: FernbedienungAssociation)
        ensures
            res == fernbedienung_association_spec(
                matching(upcore_macs(self.drones@), mac),
                matching(rpi_macs(self.pipucks@), mac),
                matching(duovero_macs(self.builderbots@), mac),
            ),
    {
        let drones = self.associate_fernbedienung_device_with_drone(mac);
        match association(&drones) {
            Association::One(i) => FernbedienungAssociation::Robot(RobotKind::Drone, i),
            Association::Many => FernbedienungAssociation::Ambiguous(RobotKind::Drone),
            Association::Unassociated => {
                let pipucks = self.associate_fernbedienung_device_with_pipuck(mac);
                match association(&pipucks) {
                    Association::One(i) => FernbedienungAssociation::Robot(RobotKind::PiPuck, i),
                    Association::Many => FernbedienungAssociation::Ambiguous(RobotKind::PiPuck),
                    Association::Unassociated => {
                        let builderbots = self.associate_fernbedienung_device_with_builderbot(mac);
                        match association(&builderbots) {
                            Association::One(i) => FernbedienungAssociation::Robot(RobotKind::BuilderBot, i),
                            Association::Many => FernbedienungAssociation::Ambiguous(RobotKind::BuilderBot),
                            Association::Unassociated => FernbedienungAssociation::Unassociated,
                        }
                    },
                }
            },
        }
    }

    /// The drone that an action addressed to `id` goes to.
    pub fn find_drone(&self, id: &String) -> (res: Option<usize>)
        ensures
            match res {
                Some(i) => first_named(drone_ids(self.drones@), id@) == Some(i as int),
                None => first_named(drone_ids(self.drones@), id@) is None,
            },
    {
        let mut ids: Vec<String> = Vec::new();
        let mut i: usize = 0;
        while i < self.drones.len()
            invariant
                i <= self.drones@.len(),
                ids@.map_values(|s: String| s@) =~= drone_ids(self.drones@).take(i as int),
            decreases self.drones.len() - i,
        {
            let ghost before = ids@;
            ids.push(self.drones[i].id.clone());
            assert(ids@.map_values(|s: String| s@) =~= before.map_values(|s: String| s@).push(self.drones@[i as int].id@));
            i = i + 1;
        }
        assert(ids@.map_values(|s: String| s@) =~= drone_ids(self.drones@));
        find_name(&ids, id)
    }

    /// The Pi-Puck that an action addressed to `id` goes to.
    pub fn find_pipuck(&self, id: &String) -> (res: Option<usize>)
        ensures
            match res {
                Some(i) => first_named(pipuck_ids(self.pipucks@), id@) == Some(i as int),
                None => first_named(pipuck_ids(self.pipucks@), id@) is None,
            },
    {
        let mut ids: Vec<String> = Vec::new();
        let mut i: usize = 0;
        while i < self.pipucks.len()
            invariant
                i <= self.pipucks@.len(),
                ids@.map_values(|s: String| s@) =~= pipuck_ids(self.pipucks@).take(i as int),
            decreases self.pipucks.len() - i,
        {
            let ghost before = ids@;
            ids.push(self.pipucks[i].id.clone());
            assert(ids@.map_values(|s: String| s@) =~= before.map_values(|s: String| s@).push(self.pipucks@[i as int].id@));
            i = i + 1;
        }
        assert(ids@.map_values(|s: String| s@) =~= pipuck_ids(self.pipucks@));
        find_name(&ids, id)
    }

    /// The BuilderBot that an action addressed to `id` goes to.
    pub fn find_builderbot(&self, id: &String) -> (res: Option<usize>)
        ensures
            match res {
                Some(i) => first_named(builderbot_ids(self.builderbots@), id@) == Some(i as int),
                None => first_named(builderbot_ids(self.builderbots@), id@) is None,
            },
    {
        let mut ids: Vec<String> = Vec::new();
        let mut i: usize = 0;
        while i < self.builderbots.len()
            invariant
                i <= self.builderbots@.len(),
                ids@.map_values(|s: String| s@) =~= builderbot_ids(self.builderbots@).take(i as int),
            decreases self.builderbots.len() - i,
        {
            let ghost before = ids@;
            ids.push(self.builderbots[i].id.clone());
            assert(ids@.map_values(|s: String| s@) =~= before.map_values(|s: String| s@).push(self.builderbots@[i as int].id@));
            i = i + 1;
        }
        assert(ids@.map_values(|s: String| s@) =~= builderbot_ids(self.builderbots@));
        find_name(&ids, id)
    }

    /// Before an experiment starts, the software of each kind of robot that
    /// the arena has is checked: the BuilderBots', then the drones', then
    /// the Pi-Pucks'. The first failing check is the answer.
    pub fn check_software(&self, builderbot_software: &Software, drone_software: &Software, pipuck_software: &Software)
        -> (res: Result<(), SoftwareError>)
        ensures
            res is Ok <==> (self.builderbots@.len() == 0 || software_valid(builderbot_software@))
                && (self.drones@.len() == 0 || software_valid(drone_software@))
                && (self.pipucks@.len() == 0 || software_valid(pipuck_software@)),
            res is Err ==> if self.builderbots@.len() > 0 && !software_valid(builderbot_software@) {
                config_checked(builderbot_software@, res)
            } else if self.drones@.len() > 0 && !software_valid(drone_software@) {
                config_checked(drone_software@, res)
            } else {
                config_checked(pipuck_software@, res)
            },
    {
        if self.builderbots.len() > 0 {
            let checked = builderbot_software.check_config();
            if checked.is_err() {
                return checked;
            }
        }
        if self.drones.len() > 0 {
            let checked = drone_software.check_config();
            if checked.is_err() {
                return checked;
            }
        }
        if self.pipucks.len() > 0 {
            let checked = pipuck_software.check_config();
            if checked.is_err() {
                return checked;
            }
        }
        Ok(())
    }
}

/// The steps of starting an experiment, after the software was checked.
#[derive(Debug, PartialEq, Eq, Clone, Copy)]
pub enum StartPhase {
    StartJournal,
    RecordDescriptors,
    SetupBuilderBots,
    SetupPiPucks,
    SetupDrones,
    StartPiPucks,
    StartBuilderBots,
    StartDrones,
}

/// What follows a step of starting an experiment.
#[derive(Debug, PartialEq, Eq, Clone, Copy)]
pub enum StartDecision {
    /// Carry out this step next.
    Next(StartPhase),
    /// The experiment runs.
    Running,
    /// A step failed: every robot is told to stop.
    StopAll,
}

/// The steps in the order in which they are carried out: the journal is
/// started and told the robots, every robot is set up, and only then are
/// the robots started.
pub open spec fn start_sequence() -> Seq<StartPhase> {
    seq![
        StartPhase::StartJournal,
        StartPhase::RecordDescriptors,
        StartPhase::SetupBuilderBots,
        StartPhase::SetupPiPucks,
        StartPhase::SetupDrones,
        StartPhase::StartPiPucks,
        StartPhase::StartBuilderBots,
        StartPhase::StartDrones,
    ]
}

/// The position of a step in the sequence.
pub open spec fn phase_index(p: StartPhase) -> int {
    match p {
        StartPhase::StartJournal => 0,
        StartPhase::RecordDescriptors => 1,
        StartPhase::SetupBuilderBots => 2,
        StartPhase::SetupPiPucks => 3,
        StartPhase::SetupDrones => 4,
        StartPhase::StartPiPucks => 5,
        StartPhase::StartBuilderBots => 6,
        StartPhase::StartDrones => 7,
    }
}

/// What follows a step, given whether it succeeded.
pub open spec fn start_next_spec(phase: StartPhase, succeeded: bool) -> StartDecision {
    if !succeeded {
        StartDecision::StopAll
    } else if phase_index(phase) + 1 < start_sequence().len() {
        StartDecision::Next(start_sequence()[phase_index(phase) + 1])
    } else {
        StartDecision::Running
    }
}

/// Decides what follows a step of starting an experiment.
pub fn start_next(phase: StartPhase, succeeded: bool) -> (res: StartDecision)
    ensures
        res == start_next_spec(phase, succeeded),
{
    if !succeeded {
        return StartDecision::StopAll;
    }
    match phase {
        StartPhase::StartJournal => StartDecision::Next(StartPhase::RecordDescriptors),
        StartPhase::RecordDescriptors => StartDecision::Next(StartPhase::SetupBuilderBots),
        StartPhase::SetupBuilderBots => StartDecision::Next(StartPhase::SetupPiPucks),
        StartPhase::SetupPiPucks => StartDecision::Next(StartPhase::SetupDrones),
        StartPhase::SetupDrones => StartDecision::Next(StartPhase::StartPiPucks),
        StartPhase::StartPiPucks => StartDecision::Next(StartPhase::StartBuilderBots),
        StartPhase::StartBuilderBots => StartDecision::Next(StartPhase::StartDrones),
        StartPhase::StartDrones => StartDecision::Running,
    }
}

/// Each step is where the sequence says; a failed step always leads to
/// stopping every robot; the experiment only runs after the drones were
/// started; and every setup comes before every start.
pub proof fn lemma_start_sequence(phase: StartPhase, succeeded: bool)
    ensures
        start_sequence()[phase_index(phase)] == phase,
        !succeeded ==> start_next_spec(phase, succeeded) == StartDecision::StopAll,
        start_next_spec(phase, succeeded) == StartDecision::Running <==> (succeeded && phase == StartPhase::StartDrones),
        phase_index(StartPhase::SetupDrones) < phase_index(StartPhase::StartPiPucks),
        start_next_spec(phase, succeeded) matches StartDecision::Next(q) ==> phase_index(q) == phase_index(phase) + 1,
{
}

/// The outcome of starting an experiment: where it failed, the robots were
/// told to stop; the start's own error is reported, together with the
/// stop's where that failed too.
#[derive(Debug)]
pub enum StartOutcome {
    Started,
    Failed { start_error: String, stop_error: Option<String> },
}

/// Combines the result of the start with that of the stop that follows a
/// failed start.
pub fn start_outcome(start: Result<(), String>, stop: Result<(), String>) -> (res: StartOutcome)
    ensures
        start is Ok ==> res == StartOutcome::Started,
        start matches Err(e) ==> res == (StartOutcome::Failed {
            start_error: e,
            stop_error: match stop { Ok(_) => None, Err(s) => Some(s) },
        }),
{
    match start {
        Ok(_) => StartOutcome::Started,
        Err(e) => StartOutcome::Failed {
            start_error: e,
            stop_error: match stop {
                Ok(_) => None,
                Err(s) => Some(s),
            },
        },
    }
}

/// The names in `ids` joined by ", ".
pub open spec fn join_names(ids: Seq<Seq<char>>) -> Seq<char>
    decreases ids.len(),
{
    if ids.len() == 0 {
        Seq::empty()
    } else if ids.len() == 1 {
        ids[0]
    } else {
        join_names(ids.drop_last()) + ", "@ + ids.last()
    }
}

/// The message of a stop that some robots did not receive, naming them;
/// none where every robot received it.
pub open spec fn stop_error_spec(failed: Seq<Seq<char>>) -> Option<Seq<char>> {
    if failed.len() == 0 {
        None
    } else {
        Some("Could not stop: "@ + join_names(failed))
    }
}

/// The error of stopping the robots named in `failed` (BuilderBots, then
/// drones, then Pi-Pucks).
pub fn stop_error(failed: &Vec<String>) -> (res: Option<String>)
    ensures
        match res {
            Some(m) => stop_error_spec(failed@.map_values(|s: String| s@)) == Some(m@),
            None => stop_error_spec(failed@.map_values(|s: String| s@)) is None,
        },
{
    let ghost names = failed@.map_values(|s: String| s@);
    if failed.len() == 0 {
        return None;
    }
    let mut joined = failed[0].clone();
    let mut i: usize = 1;
    proof {
        assert(names.take(1) =~= seq![names[0]]);
        assert(join_names(names.take(1)) == names[0]);
    }
    while i < failed.len()
        invariant
            1 <= i <= failed@.len(),
            names == failed@.map_values(|s: String| s@),
            joined@ == join_names(names.take(i as int)),
        decreases failed.len() - i,
    {
        assert(names.take(i + 1).drop_last() =~= names.take(i as int));
        assert(names.take(i + 1).last() == failed@[i as int]@);
        let sep = String::from_str(", ");
        proof { reveal_strlit(", "); }
        joined.append(sep.as_str());
        joined.append(failed[i].as_str());
        i = i + 1;
    }
    assert(names.take(i as int) =~= names);
    let mut message = String::from_str("Could not stop: ");
    proof { reveal_strlit("Could not stop: "); }
    message.append(joined.as_str());
    Some(message)
}

} // verus!
