//! The closed, ordered catalogs of game entities that key the records:
//! weapons and their variants, enemies, levels, layers, acts, difficulties,
//! and the small status enums stored in record fields.

use vstd::prelude::*;
use crate::text::dec_chars;
use crate::text::u32_to_string;
use crate::traits::IntoFileInfix;
use crate::traits::VariantCatalog;

verus! {

/// Why a variant could not be read back from its text form.
#[derive(Debug, Clone, Copy, PartialEq, Eq, Structural)]
pub enum VariantParseError {
    /// The text is not an unsigned decimal number in range.
    ParseIntError,
    /// The number names no variant.
    InvalidVariant,
}

// ---------------------------------------------------------------------------
// Weapons
// ---------------------------------------------------------------------------

#[derive(Debug, Clone, Copy, PartialEq, Eq, Structural)]
pub enum WeaponType {
    Revolver,
    Shotgun,
    Nailgun,
    Railgun,
    RocketLauncher,
    Arm,
}

#[derive(Debug, Clone, Copy, PartialEq, Eq, Structural)]
pub enum CustomizableWeaponType {
    Revolver,
    Shotgun,
    Nailgun,
    Railgun,
    RocketLauncher,
}

#[derive(Debug, Clone, Copy, PartialEq, Eq, Structural)]
pub enum UnlockableWeaponVariant {
    PiercerRevolver,
    MarksmanRevolver,
    SharpshooterRevolver,
    AlternateRevolver,
    CoreEjectShotgun,
    PumpChargeShotgun,
    AttractorNailgun,
    OverheatNailgun,
    SawbladeLauncher,
    ElectricRailgun,
    ScrewdriverRailgun,
    MaliciousRailgun,
    FreezeframeRocketLauncher,
    SRSCannonRocketLauncher,
    Knuckleblaster,
    Whiplash,
}

impl WeaponType {
    pub open spec fn unlockable_variants_spec(self) -> Seq<UnlockableWeaponVariant> {
        match self {
            WeaponType::Revolver => seq![
                UnlockableWeaponVariant::PiercerRevolver,
                UnlockableWeaponVariant::MarksmanRevolver,
                UnlockableWeaponVariant::SharpshooterRevolver,
                UnlockableWeaponVariant::AlternateRevolver,
            ],
            WeaponType::Shotgun => seq![
                UnlockableWeaponVariant::CoreEjectShotgun,
                UnlockableWeaponVariant::PumpChargeShotgun,
            ],
            WeaponType::Nailgun => seq![
                UnlockableWeaponVariant::AttractorNailgun,
                UnlockableWeaponVariant::OverheatNailgun,
                UnlockableWeaponVariant::SawbladeLauncher,
            ],
            WeaponType::Railgun => seq![
                UnlockableWeaponVariant::ElectricRailgun,
                UnlockableWeaponVariant::MaliciousRailgun,
                UnlockableWeaponVariant::ScrewdriverRailgun,
            ],
            WeaponType::RocketLauncher => seq![
                UnlockableWeaponVariant::FreezeframeRocketLauncher,
                UnlockableWeaponVariant::SRSCannonRocketLauncher,
            ],
            WeaponType::Arm => seq![
                UnlockableWeaponVariant::Knuckleblaster,
                UnlockableWeaponVariant::Whiplash,
            ],
        }
    }

    /// The unlockable variants that belong to this weapon, in display order.
    pub fn get_unlockable_variants(&self) -> (r: Vec<UnlockableWeaponVariant>)
        ensures
            r@ =~= self.unlockable_variants_spec(),
    {
        match self {
            WeaponType::Revolver => vec![
                UnlockableWeaponVariant::PiercerRevolver,
                UnlockableWeaponVariant::MarksmanRevolver,
                UnlockableWeaponVariant::SharpshooterRevolver,
                UnlockableWeaponVariant::AlternateRevolver,
            ],
            WeaponType::Shotgun => vec![
                UnlockableWeaponVariant::CoreEjectShotgun,
                UnlockableWeaponVariant::PumpChargeShotgun,
            ],
            WeaponType::Nailgun => vec![
                UnlockableWeaponVariant::AttractorNailgun,
                UnlockableWeaponVariant::OverheatNailgun,
                UnlockableWeaponVariant::SawbladeLauncher,
            ],
            WeaponType::Railgun => vec![
                UnlockableWeaponVariant::ElectricRailgun,
                UnlockableWeaponVariant::MaliciousRailgun,
                UnlockableWeaponVariant::ScrewdriverRailgun,
            ],
            WeaponType::RocketLauncher => vec![
                UnlockableWeaponVariant::FreezeframeRocketLauncher,
                UnlockableWeaponVariant::SRSCannonRocketLauncher,
            ],
            WeaponType::Arm => vec![
                UnlockableWeaponVariant::Knuckleblaster,
                UnlockableWeaponVariant::Whiplash,
            ],
        }
    }

    pub open spec fn customizable_spec(self) -> Option<CustomizableWeaponType> {
        match self {
            WeaponType::Revolver => Some(CustomizableWeaponType::Revolver),
            WeaponType::Shotgun => Some(CustomizableWeaponType::Shotgun),
            WeaponType::Nailgun => Some(CustomizableWeaponType::Nailgun),
            WeaponType::Railgun => Some(CustomizableWeaponType::Railgun),
            WeaponType::RocketLauncher => Some(CustomizableWeaponType::RocketLauncher),
            WeaponType::Arm => None,
        }
    }

    /// The customizable counterpart of this weapon, if it has one.
    pub fn get_customizable(&self) -> (r: Option<CustomizableWeaponType>)
        ensures
            r == self.customizable_spec(),
    {
        match self {
            WeaponType::Revolver => Some(CustomizableWeaponType::Revolver),
            WeaponType::Shotgun => Some(CustomizableWeaponType::Shotgun),
            WeaponType::Nailgun => Some(CustomizableWeaponType::Nailgun),
            WeaponType::Railgun => Some(CustomizableWeaponType::Railgun),
            WeaponType::RocketLauncher => Some(CustomizableWeaponType::RocketLauncher),
            WeaponType::Arm => None,
        }
    }
}

impl CustomizableWeaponType {
    pub open spec fn count_spec() -> int {
        5
    }

    pub open spec fn index_spec(self) -> int {
        match self {
            CustomizableWeaponType::Revolver => 0,
            CustomizableWeaponType::Shotgun => 1,
            CustomizableWeaponType::Nailgun => 2,
            CustomizableWeaponType::Railgun => 3,
            CustomizableWeaponType::RocketLauncher => 4,
        }
    }

    pub open spec fn from_index_spec(i: int) -> CustomizableWeaponType {
        if i == 0 { CustomizableWeaponType::Revolver }
        else if i == 1 { CustomizableWeaponType::Shotgun }
        else if i == 2 { CustomizableWeaponType::Nailgun }
        else if i == 3 { CustomizableWeaponType::Railgun }
        else { CustomizableWeaponType::RocketLauncher }
    }

    pub fn index(&self) -> (i: usize)
        ensures
            i == self.index_spec(),
    {
        match self {
            CustomizableWeaponType::Revolver => 0,
            CustomizableWeaponType::Shotgun => 1,
            CustomizableWeaponType::Nailgun => 2,
            CustomizableWeaponType::Railgun => 3,
            CustomizableWeaponType::RocketLauncher => 4,
        }
    }

    pub fn from_index(i: usize) -> (r: CustomizableWeaponType)
        requires
            0 <= i < CustomizableWeaponType::count_spec(),
        ensures
            r == CustomizableWeaponType::from_index_spec(i as int),
            r.index_spec() == i,
    {
        match i {
            0 => CustomizableWeaponType::Revolver,
            1 => CustomizableWeaponType::Shotgun,
            2 => CustomizableWeaponType::Nailgun,
            3 => CustomizableWeaponType::Railgun,
            _ => CustomizableWeaponType::RocketLauncher,
        }
    }
}

impl UnlockableWeaponVariant {
    pub open spec fn count_spec() -> int {
        16
    }

    pub open spec fn index_spec(self) -> int {
        match self {
            UnlockableWeaponVariant::PiercerRevolver => 0,
            UnlockableWeaponVariant::MarksmanRevolver => 1,
            UnlockableWeaponVariant::SharpshooterRevolver => 2,
            UnlockableWeaponVariant::AlternateRevolver => 3,
            UnlockableWeaponVariant::CoreEjectShotgun => 4,
            UnlockableWeaponVariant::PumpChargeShotgun => 5,
            UnlockableWeaponVariant::AttractorNailgun => 6,
            UnlockableWeaponVariant::OverheatNailgun => 7,
            UnlockableWeaponVariant::SawbladeLauncher => 8,
            UnlockableWeaponVariant::ElectricRailgun => 9,
            UnlockableWeaponVariant::ScrewdriverRailgun => 10,
            UnlockableWeaponVariant::MaliciousRailgun => 11,
            UnlockableWeaponVariant::FreezeframeRocketLauncher => 12,
            UnlockableWeaponVariant::SRSCannonRocketLauncher => 13,
            UnlockableWeaponVariant::Knuckleblaster => 14,
            UnlockableWeaponVariant::Whiplash => 15,
        }
    }

    pub open spec fn from_index_spec(i: int) -> UnlockableWeaponVariant {
        if i == 0 { UnlockableWeaponVariant::PiercerRevolver }
        else if i == 1 { UnlockableWeaponVariant::MarksmanRevolver }
        else if i == 2 { UnlockableWeaponVariant::SharpshooterRevolver }
        else if i == 3 { UnlockableWeaponVariant::AlternateRevolver }
        else if i == 4 { UnlockableWeaponVariant::CoreEjectShotgun }
        else if i == 5 { UnlockableWeaponVariant::PumpChargeShotgun }
        else if i == 6 { UnlockableWeaponVariant::AttractorNailgun }
        else if i == 7 { UnlockableWeaponVariant::OverheatNailgun }
        else if i == 8 { UnlockableWeaponVariant::SawbladeLauncher }
        else if i == 9 { UnlockableWeaponVariant::ElectricRailgun }
        else if i == 10 { UnlockableWeaponVariant::ScrewdriverRailgun }
        else if i == 11 { UnlockableWeaponVariant::MaliciousRailgun }
        else if i == 12 { UnlockableWeaponVariant::FreezeframeRocketLauncher }
        else if i == 13 { UnlockableWeaponVariant::SRSCannonRocketLauncher }
        else if i == 14 { UnlockableWeaponVariant::Knuckleblaster }
        else { UnlockableWeaponVariant::Whiplash }
    }

    pub fn index(&self) -> (i: usize)
        ensures
            i == self.index_spec(),
    {
        match self {
            UnlockableWeaponVariant::PiercerRevolver => 0,
            UnlockableWeaponVariant::MarksmanRevolver => 1,
            UnlockableWeaponVariant::SharpshooterRevolver => 2,
            UnlockableWeaponVariant::AlternateRevolver => 3,
            UnlockableWeaponVariant::CoreEjectShotgun => 4,
            UnlockableWeaponVariant::PumpChargeShotgun => 5,
            UnlockableWeaponVariant::AttractorNailgun => 6,
            UnlockableWeaponVariant::OverheatNailgun => 7,
            UnlockableWeaponVariant::SawbladeLauncher => 8,
            UnlockableWeaponVariant::ElectricRailgun => 9,
            UnlockableWeaponVariant::ScrewdriverRailgun => 10,
            UnlockableWeaponVariant::MaliciousRailgun => 11,
            UnlockableWeaponVariant::FreezeframeRocketLauncher => 12,
            UnlockableWeaponVariant::SRSCannonRocketLauncher => 13,
            UnlockableWeaponVariant::Knuckleblaster => 14,
            UnlockableWeaponVariant::Whiplash => 15,
        }
    }

    pub fn from_index(i: usize) -> (r: UnlockableWeaponVariant)
        requires
            0 <= i < UnlockableWeaponVariant::count_spec(),
        ensures
            r == UnlockableWeaponVariant::from_index_spec(i as int),
            r.index_spec() == i,
    {
        match i {
            0 => UnlockableWeaponVariant::PiercerRevolver,
            1 => UnlockableWeaponVariant::MarksmanRevolver,
            2 => UnlockableWeaponVariant::SharpshooterRevolver,
            3 => UnlockableWeaponVariant::AlternateRevolver,
            4 => UnlockableWeaponVariant::CoreEjectShotgun,
            5 => UnlockableWeaponVariant::PumpChargeShotgun,
            6 => UnlockableWeaponVariant::AttractorNailgun,
            7 => UnlockableWeaponVariant::OverheatNailgun,
            8 => UnlockableWeaponVariant::SawbladeLauncher,
            9 => UnlockableWeaponVariant::ElectricRailgun,
            10 => UnlockableWeaponVariant::ScrewdriverRailgun,
            11 => UnlockableWeaponVariant::MaliciousRailgun,
            12 => UnlockableWeaponVariant::FreezeframeRocketLauncher,
            13 => UnlockableWeaponVariant::SRSCannonRocketLauncher,
            14 => UnlockableWeaponVariant::Knuckleblaster,
            _ => UnlockableWeaponVariant::Whiplash,
        }
    }
}

// ---------------------------------------------------------------------------
// Unlockables and enemies
// ---------------------------------------------------------------------------

#[derive(Debug, Clone, Copy, PartialEq, Eq, Structural)]
pub enum UnlockableType {
    Florp,
    KITR,
}

impl UnlockableType {
    pub open spec fn count_spec() -> int {
        2
    }

    pub open spec fn index_spec(self) -> int {
        match self {
            UnlockableType::Florp => 0,
            UnlockableType::KITR => 1,
        }
    }

    pub fn index(&self) -> (i: usize)
        ensures
            i == self.index_spec(),
    {
        match self {
            UnlockableType::Florp => 0,
            UnlockableType::KITR => 1,
        }
    }

    pub fn from_index(i: usize) -> (r: UnlockableType)
        requires
            0 <= i < UnlockableType::count_spec(),
        ensures
            r.index_spec() == i,
    {
        match i {
            0 => UnlockableType::Florp,
            _ => UnlockableType::KITR,
        }
    }
}

#[derive(Debug, Clone, Copy, PartialEq, Eq, Structural)]
pub enum EnemyType {
    Cerberus,
    Drone,
    HideousMass,
    Filth,
    MaliciousFace,
    Mindflayer,
    Streetcleaner,
    Swordsmachine,
    V2,
    Virtue,
    Wicked,
    Minos,
    Stalker,
    Stray,
    Schism,
    Soldier,
    Gabriel,
    FleshPrison,
    MinosPrime,
    SisypheanInsurrectionist,
    Sentry,
    Idol,
    V2Second,
    CancerousRodent,
    VeryCancerousRodent,
    Mandalore,
    Ferryman,
    Leviathan,
    GabrielSecond,
    SisyphusPrime,
    FleshPanopticon,
    Mannequin,
    Minotaur,
    Gutterman,
    Guttertank,
    Centaur,
    BigJohnator,
}

impl EnemyType {
    pub open spec fn count_spec() -> int {
        37
    }

    pub open spec fn index_spec(self) -> int {
        match self {
            EnemyType::Cerberus => 0,
            EnemyType::Drone => 1,
            EnemyType::HideousMass => 2,
            EnemyType::Filth => 3,
            EnemyType::MaliciousFace => 4,
            EnemyType::Mindflayer => 5,
            EnemyType::Streetcleaner => 6,
            EnemyType::Swordsmachine => 7,
            EnemyType::V2 => 8,
            EnemyType::Virtue => 9,
            EnemyType::Wicked => 10,
            EnemyType::Minos => 11,
            EnemyType::Stalker => 12,
            EnemyType::Stray => 13,
            EnemyType::Schism => 14,
            EnemyType::Soldier => 15,
            EnemyType::Gabriel => 16,
            EnemyType::FleshPrison => 17,
            EnemyType::MinosPrime => 18,
            EnemyType::SisypheanInsurrectionist => 19,
            EnemyType::Sentry => 20,
            EnemyType::Idol => 21,
            EnemyType::V2Second => 22,
            EnemyType::CancerousRodent => 23,
            EnemyType::VeryCancerousRodent => 24,
            EnemyType::Mandalore => 25,
            EnemyType::Ferryman => 26,
            EnemyType::Leviathan => 27,
            EnemyType::GabrielSecond => 28,
            EnemyType::SisyphusPrime => 29,
            EnemyType::FleshPanopticon => 30,
            EnemyType::Mannequin => 31,
            EnemyType::Minotaur => 32,
            EnemyType::Gutterman => 33,
            EnemyType::Guttertank => 34,
            EnemyType::Centaur => 35,
            EnemyType::BigJohnator => 36,
        }
    }

    pub fn index(&self) -> (i: usize)
        ensures
            i == self.index_spec(),
    {
        match self {
            EnemyType::Cerberus => 0,
            EnemyType::Drone => 1,
            EnemyType::HideousMass => 2,
            EnemyType::Filth => 3,
            EnemyType::MaliciousFace => 4,
            EnemyType::Mindflayer => 5,
            EnemyType::Streetcleaner => 6,
            EnemyType::Swordsmachine => 7,
            EnemyType::V2 => 8,
            EnemyType::Virtue => 9,
            EnemyType::Wicked => 10,
            EnemyType::Minos => 11,
            EnemyType::Stalker => 12,
            EnemyType::Stray => 13,
            EnemyType::Schism => 14,
            EnemyType::Soldier => 15,
            EnemyType::Gabriel => 16,
            EnemyType::FleshPrison => 17,
            EnemyType::MinosPrime => 18,
            EnemyType::SisypheanInsurrectionist => 19,
            EnemyType::Sentry => 20,
            EnemyType::Idol => 21,
            EnemyType::V2Second => 22,
            EnemyType::CancerousRodent => 23,
            EnemyType::VeryCancerousRodent => 24,
            EnemyType::Mandalore => 25,
            EnemyType::Ferryman => 26,
            EnemyType::Leviathan => 27,
            EnemyType::GabrielSecond => 28,
            EnemyType::SisyphusPrime => 29,
            EnemyType::FleshPanopticon => 30,
            EnemyType::Mannequin => 31,
            EnemyType::Minotaur => 32,
            EnemyType::Gutterman => 33,
            EnemyType::Guttertank => 34,
            EnemyType::Centaur => 35,
            EnemyType::BigJohnator => 36,
        }
    }
}

// ---------------------------------------------------------------------------
// Field status enums
// ---------------------------------------------------------------------------

/// Tri-state lock status stored as a small integer on the wire.
#[derive(Debug, Clone, Copy, PartialEq, Eq, Structural)]
pub enum Lockable {
    Locked,
    Unlocked,
    Completed,
}

impl Lockable {
    pub open spec fn to_i32_spec(self) -> i32 {
        match self {
            Lockable::Locked => 0,
            Lockable::Unlocked => 1,
            Lockable::Completed => 2,
        }
    }

    pub open spec fn from_i32_spec(v: i32) -> Option<Lockable> {
        if v == 0 { Some(Lockable::Locked) }
        else if v == 1 { Some(Lockable::Unlocked) }
        else if v == 2 { Some(Lockable::Completed) }
        else { None }
    }

    pub fn to_i32(&self) -> (r: i32)
        ensures
            r == self.to_i32_spec(),
    {
        match self {
            Lockable::Locked => 0,
            Lockable::Unlocked => 1,
            Lockable::Completed => 2,
        }
    }

    /// The status a wire integer names, if any: unknown discriminants are
    /// refused.
    pub fn from_i32(v: i32) -> (r: Option<Lockable>)
        ensures
            r == Lockable::from_i32_spec(v),
    {
        if v == 0 { Some(Lockable::Locked) }
        else if v == 1 { Some(Lockable::Unlocked) }
        else if v == 2 { Some(Lockable::Completed) }
        else { None }
    }
}

/// Wire integers read as lock statuses: any unknown discriminant refuses
/// the whole array.
pub open spec fn lockables_of(a: Seq<i32>) -> Option<Seq<Lockable>>
    decreases a.len(),
{
    if a.len() == 0 {
        Some(Seq::empty())
    } else {
        match (Lockable::from_i32_spec(a[0]), lockables_of(a.drop_first())) {
            (Some(l), Some(rest)) => Some(seq![l] + rest),
            _ => None,
        }
    }
}

pub open spec fn lockables_to_ints(a: Seq<Lockable>) -> Seq<i32> {
    a.map_values(|l: Lockable| l.to_i32_spec())
}

/// Reading back the written statuses yields the originals.
pub proof fn lemma_lockables_roundtrip(a: Seq<Lockable>)
    ensures
        lockables_of(lockables_to_ints(a)) == Some(a),
    decreases a.len(),
{
    if a.len() == 0 {
        assert(lockables_to_ints(a).len() == 0);
        assert(lockables_of(lockables_to_ints(a)) == Some(Seq::<Lockable>::empty()));
        assert(a =~= Seq::<Lockable>::empty());
    } else {
        lemma_lockables_roundtrip(a.drop_first());
        let w = lockables_to_ints(a);
        assert(w[0] == a[0].to_i32_spec());
        assert(w.drop_first() =~= lockables_to_ints(a.drop_first()));
        assert(Lockable::from_i32_spec(a[0].to_i32_spec()) == Some(a[0]));
        assert(seq![a[0]] + a.drop_first() =~= a);
    }
}

pub fn lockables_from_ints(a: &Vec<i32>) -> (r: Option<Vec<Lockable>>)
    ensures
        match r {
            Some(v) => lockables_of(a@) == Some(v@),
            None => lockables_of(a@) is None,
        },
{
    let mut out: Vec<Lockable> = Vec::new();
    let n = a.len();
    let mut i: usize = 0;
    while i < n
        invariant
            0 <= i <= n,
            n == a@.len(),
            out@.len() == i,
            forall|k: int| 0 <= k < i ==> Lockable::from_i32_spec(a@[k]) == Some(#[trigger] out@[k]),
        decreases n - i,
    {
        match Lockable::from_i32(a[i]) {
            Some(l) => out.push(l),
            None => {
                proof {
                    lemma_lockables_of_at(a@, i as int);
                }
                return None;
            },
        }
        i = i + 1;
    }
    proof {
        lemma_lockables_of_all(a@, out@);
    }
    Some(out)
}

proof fn lemma_lockables_of_at(a: Seq<i32>, i: int)
    requires
        0 <= i < a.len(),
        Lockable::from_i32_spec(a[i]) is None,
    ensures
        lockables_of(a) is None,
    decreases a.len(),
{
    if a.len() > 0 {
        if i == 0 {
        } else {
            lemma_lockables_of_at(a.drop_first(), i - 1);
        }
    }
}

proof fn lemma_lockables_of_all(a: Seq<i32>, out: Seq<Lockable>)
    requires
        out.len() == a.len(),
        forall|k: int| 0 <= k < a.len() ==> Lockable::from_i32_spec(a[k]) == Some(#[trigger] out[k]),
    ensures
        lockables_of(a) == Some(out),
    decreases a.len(),
{
    if a.len() == 0 {
        assert(out =~= Seq::<Lockable>::empty());
    } else {
        assert(forall|k: int| 0 <= k < a.drop_first().len()
            ==> Lockable::from_i32_spec(a.drop_first()[k]) == Some(#[trigger] out.drop_first()[k]));
        lemma_lockables_of_all(a.drop_first(), out.drop_first());
        assert(seq![out[0]] + out.drop_first() =~= out);
    }
}

/// Write lock statuses as their wire integers.
pub fn lockables_to_int_vec(a: &Vec<Lockable>) -> (r: Vec<i32>)
    ensures
        r@ =~= lockables_to_ints(a@),
{
    let mut out: Vec<i32> = Vec::new();
    let n = a.len();
    let mut i: usize = 0;
    while i < n
        invariant
            0 <= i <= n,
            n == a@.len(),
            out@.len() == i,
            forall|k: int| 0 <= k < i ==> #[trigger] out@[k] == a@[k].to_i32_spec(),
        decreases n - i,
    {
        out.push(a[i].to_i32());
        i = i + 1;
    }
    out
}

impl Default for Lockable {
    fn default() -> (r: Lockable)
        ensures
            r == Lockable::Locked,
    {
        Lockable::Locked
    }
}

/// A level rank, stored as an integer on the wire.
#[derive(Debug, Clone, Copy, PartialEq, Eq, Structural)]
pub enum LevelRank {
    Unranked,
    D,
    C,
    B,
    A,
    S,
    P,
}

impl LevelRank {
    pub open spec fn to_i32_spec(self) -> i32 {
        match self {
            LevelRank::Unranked => -1i32,
            LevelRank::D => 0,
            LevelRank::C => 1,
            LevelRank::B => 2,
            LevelRank::A => 3,
            LevelRank::S => 4,
            LevelRank::P => 12,
        }
    }

    /// The rank a wire integer names, if any: only the discriminants the
    /// consuming runtime writes are accepted, and an unknown one is
    /// refused.
    pub open spec fn from_i32_spec(v: i32) -> Option<LevelRank> {
        if v == -1 { Some(LevelRank::Unranked) }
        else if v == 0 { Some(LevelRank::D) }
        else if v == 1 { Some(LevelRank::C) }
        else if v == 2 { Some(LevelRank::B) }
        else if v == 3 { Some(LevelRank::A) }
        else if v == 4 { Some(LevelRank::S) }
        else if v == 12 { Some(LevelRank::P) }
        else { None }
    }

    pub fn to_i32(&self) -> (r: i32)
        ensures
            r == self.to_i32_spec(),
    {
        match self {
            LevelRank::Unranked => -1,
            LevelRank::D => 0,
            LevelRank::C => 1,
            LevelRank::B => 2,
            LevelRank::A => 3,
            LevelRank::S => 4,
            LevelRank::P => 12,
        }
    }
}

/// Wire integers read as ranks: any unknown discriminant refuses the
/// whole array.
pub open spec fn ranks_of(a: Seq<i32>) -> Option<Seq<LevelRank>>
    decreases a.len(),
{
    if a.len() == 0 {
        Some(Seq::empty())
    } else {
        match (LevelRank::from_i32_spec(a[0]), ranks_of(a.drop_first())) {
            (Some(r), Some(rest)) => Some(seq![r] + rest),
            _ => None,
        }
    }
}

pub open spec fn ranks_to_ints(a: Seq<LevelRank>) -> Seq<i32> {
    a.map_values(|r: LevelRank| r.to_i32_spec())
}

/// Reading back the written ranks yields the originals.
pub proof fn lemma_ranks_roundtrip(a: Seq<LevelRank>)
    ensures
        ranks_of(ranks_to_ints(a)) == Some(a),
    decreases a.len(),
{
    if a.len() == 0 {
        assert(ranks_to_ints(a).len() == 0);
        assert(ranks_of(ranks_to_ints(a)) == Some(Seq::<LevelRank>::empty()));
        assert(a =~= Seq::<LevelRank>::empty());
    } else {
        lemma_ranks_roundtrip(a.drop_first());
        let w = ranks_to_ints(a);
        assert(w[0] == a[0].to_i32_spec());
        assert(w.drop_first() =~= ranks_to_ints(a.drop_first()));
        assert(LevelRank::from_i32_spec(a[0].to_i32_spec()) == Some(a[0]));
        assert(seq![a[0]] + a.drop_first() =~= a);
    }
}

pub fn ranks_from_ints(a: &Vec<i32>) -> (r: Option<Vec<LevelRank>>)
    ensures
        match r {
            Some(v) => ranks_of(a@) == Some(v@),
            None => ranks_of(a@) is None,
        },
{
    let mut out: Vec<LevelRank> = Vec::new();
    let n = a.len();
    let mut i: usize = 0;
    while i < n
        invariant
            0 <= i <= n,
            n == a@.len(),
            out@.len() == i,
            forall|k: int| 0 <= k < i ==> LevelRank::from_i32_spec(a@[k]) == Some(
                #[trigger] out@[k],
            ),
        decreases n - i,
    {
        match LevelRank::from_i32(a[i]) {
            Some(rank) => out.push(rank),
            None => {
                proof {
                    lemma_ranks_of_at(a@, i as int);
                }
                return None;
            },
        }
        i = i + 1;
    }
    proof {
        lemma_ranks_of_all(a@, out@);
    }
    Some(out)
}

proof fn lemma_ranks_of_at(a: Seq<i32>, i: int)
    requires
        0 <= i < a.len(),
        LevelRank::from_i32_spec(a[i]) is None,
    ensures
        ranks_of(a) is None,
    decreases a.len(),
{
    if a.len() > 0 {
        if i == 0 {
        } else {
            lemma_ranks_of_at(a.drop_first(), i - 1);
        }
    }
}

proof fn lemma_ranks_of_all(a: Seq<i32>, out: Seq<LevelRank>)
    requires
        out.len() == a.len(),
        forall|k: int| 0 <= k < a.len() ==> LevelRank::from_i32_spec(a[k]) == Some(#[trigger] out[k]),
    ensures
        ranks_of(a) == Some(out),
    decreases a.len(),
{
    if a.len() == 0 {
        assert(out =~= Seq::<LevelRank>::empty());
    } else {
        assert(forall|k: int| 0 <= k < a.drop_first().len()
            ==> LevelRank::from_i32_spec(a.drop_first()[k]) == Some(#[trigger] out.drop_first()[k]));
        lemma_ranks_of_all(a.drop_first(), out.drop_first());
        assert(seq![out[0]] + out.drop_first() =~= out);
    }
}

pub fn ranks_to_int_vec(a: &Vec<LevelRank>) -> (r: Vec<i32>)
    ensures
        r@ =~= ranks_to_ints(a@),
{
    let mut out: Vec<i32> = Vec::new();
    let n = a.len();
    let mut i: usize = 0;
    while i < n
        invariant
            0 <= i <= n,
            n == a@.len(),
            out@.len() == i,
            forall|k: int| 0 <= k < i ==> #[trigger] out@[k] == a@[k].to_i32_spec(),
        decreases n - i,
    {
        out.push(a[i].to_i32());
        i = i + 1;
    }
    out
}

impl Default for LevelRank {
    fn default() -> (r: LevelRank)
        ensures
            r == LevelRank::Unranked,
    {
        LevelRank::Unranked
    }
}

impl LevelRank {
    /// The rank a wire integer names; an unknown discriminant is refused.
    pub fn from_i32(value: i32) -> (r: Option<LevelRank>)
        ensures
            r == LevelRank::from_i32_spec(value),
    {
        if value == -1 {
            Some(LevelRank::Unranked)
        } else if value == 0 {
            Some(LevelRank::D)
        } else if value == 1 {
            Some(LevelRank::C)
        } else if value == 2 {
            Some(LevelRank::B)
        } else if value == 3 {
            Some(LevelRank::A)
        } else if value == 4 {
            Some(LevelRank::S)
        } else if value == 12 {
            Some(LevelRank::P)
        } else {
            None
        }
    }
}

// ---------------------------------------------------------------------------
// Save slots and difficulties
// ---------------------------------------------------------------------------

#[derive(Debug, Clone, Copy, PartialEq, Eq, Structural)]
pub enum SaveSlot {
    One,
    Two,
    Three,
    Four,
    Five,
}

impl SaveSlot {
    pub open spec fn number_spec(self) -> int {
        match self {
            SaveSlot::One => 1,
            SaveSlot::Two => 2,
            SaveSlot::Three => 3,
            SaveSlot::Four => 4,
            SaveSlot::Five => 5,
        }
    }

    /// The slot's number as shown in the save directory name.
    pub fn number(&self) -> (n: u8)
        ensures
            n == self.number_spec(),
    {
        match self {
            SaveSlot::One => 1,
            SaveSlot::Two => 2,
            SaveSlot::Three => 3,
            SaveSlot::Four => 4,
            SaveSlot::Five => 5,
        }
    }
}

impl Default for SaveSlot {
    fn default() -> (r: SaveSlot)
        ensures
            r == SaveSlot::One,
    {
        SaveSlot::One
    }
}

#[derive(Debug, Clone, Copy, PartialEq, Eq, Structural)]
pub enum Difficulty {
    Harmless,
    Lenient,
    Standard,
    Violent,
}

impl Difficulty {
    pub open spec fn count_spec() -> int {
        4
    }

    /// Catalog position; it equals the wire discriminant.
    pub open spec fn index_spec(self) -> int {
        match self {
            Difficulty::Harmless => 0,
            Difficulty::Lenient => 1,
            Difficulty::Standard => 2,
            Difficulty::Violent => 3,
        }
    }

    pub open spec fn from_index_spec(i: int) -> Difficulty {
        if i == 0 { Difficulty::Harmless }
        else if i == 1 { Difficulty::Lenient }
        else if i == 2 { Difficulty::Standard }
        else { Difficulty::Violent }
    }

    pub fn index(&self) -> (i: usize)
        ensures
            i == self.index_spec(),
    {
        match self {
            Difficulty::Harmless => 0,
            Difficulty::Lenient => 1,
            Difficulty::Standard => 2,
            Difficulty::Violent => 3,
        }
    }

    pub fn from_index(i: usize) -> (r: Difficulty)
        requires
            0 <= i < Difficulty::count_spec(),
        ensures
            r == Difficulty::from_index_spec(i as int),
            r.index_spec() == i,
    {
        match i {
            0 => Difficulty::Harmless,
            1 => Difficulty::Lenient,
            2 => Difficulty::Standard,
            _ => Difficulty::Violent,
        }
    }
}

impl Default for Difficulty {
    fn default() -> (r: Difficulty)
        ensures
            r == Difficulty::Standard,
    {
        Difficulty::Standard
    }
}

impl IntoFileInfix for Difficulty {
    open spec fn infix_spec(&self) -> Seq<char> {
        dec_chars(self.index_spec() as nat)
    }

    fn into_file_infix(&self) -> (r: String) {
        let i = self.index();
        u32_to_string(i as u32)
    }
}

impl VariantCatalog for Difficulty {
    open spec fn count_spec() -> int {
        Difficulty::count_spec()
    }

    open spec fn from_index_spec(i: int) -> Difficulty {
        Difficulty::from_index_spec(i)
    }

    fn count() -> (n: usize) {
        4
    }

    fn from_index(i: usize) -> (r: Difficulty) {
        Difficulty::from_index(i)
    }
}

// ---------------------------------------------------------------------------
// Secret levels, acts, layers
// ---------------------------------------------------------------------------

#[derive(Debug, Clone, Copy, PartialEq, Eq, Structural)]
pub enum SecretLevel {
    SomethingWicked,
    TheWitless,
    AllImperfectLoveSong,
    SoulSurvivor,
    ClashOfTheBrandicoot,
    IOnlySayMorning,
    WaitOfTheWorld,
    UnknownSecret7,
    UnknownSecret8,
    UnknownPrime3,
}

impl SecretLevel {
    pub open spec fn count_spec() -> int {
        10
    }

    pub open spec fn index_spec(self) -> int {
        match self {
            SecretLevel::SomethingWicked => 0,
            SecretLevel::TheWitless => 1,
            SecretLevel::AllImperfectLoveSong => 2,
            SecretLevel::SoulSurvivor => 3,
            SecretLevel::ClashOfTheBrandicoot => 4,
            SecretLevel::IOnlySayMorning => 5,
            SecretLevel::WaitOfTheWorld => 6,
            SecretLevel::UnknownSecret7 => 7,
            SecretLevel::UnknownSecret8 => 8,
            SecretLevel::UnknownPrime3 => 9,
        }
    }

    pub fn index(&self) -> (i: usize)
        ensures
            i == self.index_spec(),
    {
        match self {
            SecretLevel::SomethingWicked => 0,
            SecretLevel::TheWitless => 1,
            SecretLevel::AllImperfectLoveSong => 2,
            SecretLevel::SoulSurvivor => 3,
            SecretLevel::ClashOfTheBrandicoot => 4,
            SecretLevel::IOnlySayMorning => 5,
            SecretLevel::WaitOfTheWorld => 6,
            SecretLevel::UnknownSecret7 => 7,
            SecretLevel::UnknownSecret8 => 8,
            SecretLevel::UnknownPrime3 => 9,
        }
    }

    pub open spec fn is_prime_spec(self) -> bool {
        self == SecretLevel::SoulSurvivor || self == SecretLevel::WaitOfTheWorld
            || self == SecretLevel::UnknownPrime3
    }

    /// Whether this secret level is a prime sanctum.
    pub fn is_prime(&self) -> (r: bool)
        ensures
            r == self.is_prime_spec(),
    {
        match self {
            SecretLevel::SoulSurvivor | SecretLevel::WaitOfTheWorld | SecretLevel::UnknownPrime3 => true,
            _ => false,
        }
    }
}

#[derive(Debug, Clone, Copy, PartialEq, Eq, Structural)]
pub enum Act {
    Prelude,
    Act1,
    Act2,
    Act3,
}

#[derive(Debug, Clone, Copy, PartialEq, Eq, Structural)]
pub enum Layer {
    Overture,
    Limbo,
    Lust,
    Gluttony,
    Greed,
    Wrath,
    Heresy,
    Violence,
    Fraud,
    Treachery,
}

impl Act {
    pub open spec fn layers_spec(self) -> Seq<Layer> {
        match self {
            Act::Prelude => seq![Layer::Overture],
            Act::Act1 => seq![Layer::Limbo, Layer::Lust, Layer::Gluttony],
            Act::Act2 => seq![Layer::Greed, Layer::Wrath, Layer::Heresy],
            Act::Act3 => seq![Layer::Violence, Layer::Fraud, Layer::Treachery],
        }
    }

    /// The layers this act spans, in order.
    pub fn get_layers(&self) -> (r: Vec<Layer>)
        ensures
            r@ =~= self.layers_spec(),
    {
        match self {
            Act::Prelude => vec![Layer::Overture],
            Act::Act1 => vec![Layer::Limbo, Layer::Lust, Layer::Gluttony],
            Act::Act2 => vec![Layer::Greed, Layer::Wrath, Layer::Heresy],
            Act::Act3 => vec![Layer::Violence, Layer::Fraud, Layer::Treachery],
        }
    }
}

#[derive(Debug, Clone, Copy, PartialEq, Eq, Structural)]
pub enum Level {
    IntoTheFire,
    TheMeatgrinder,
    DoubleDown,
    AOneMachineArmy,
    Cerberus,
    HeartOfTheSunrise,
    TheBurningWorld,
    HallsOfSacredRemains,
    ClairDeLune,
    Bridgeburner,
    DeathAt20000Volts,
    SheerHeartAttack,
    CourtOfTheCorpseKing,
    BellyOfTheBeast,
    InTheFlesh,
    SlavesToPower,
    GodDamnTheSun,
    AShotInTheDark,
    ClairDeSoleil,
    InTheWakeOfPoseidon,
    WavesOfTheStarlessSea,
    ShipOfFools,
    Leviathan,
    CryForTheWeeper,
    AestheticsOfHate,
    GardenOfForkingPaths,
    LightUpTheNight,
    NoSoundNoMemory,
    LikeAntennasToHeaven,
    SoulSurvivor,
    WaitOfTheWorld,
}

impl Layer {
    pub open spec fn levels_spec(self) -> Seq<Level> {
        match self {
            Layer::Overture => seq![
                Level::IntoTheFire,
                Level::TheMeatgrinder,
                Level::DoubleDown,
                Level::AOneMachineArmy,
                Level::Cerberus,
            ],
            Layer::Limbo => seq![
                Level::HeartOfTheSunrise,
                Level::TheBurningWorld,
                Level::HallsOfSacredRemains,
                Level::ClairDeLune,
            ],
            Layer::Lust => seq![
                Level::Bridgeburner,
                Level::DeathAt20000Volts,
                Level::SheerHeartAttack,
                Level::CourtOfTheCorpseKing,
            ],
            Layer::Gluttony => seq![Level::BellyOfTheBeast, Level::InTheFlesh, Level::SoulSurvivor],
            Layer::Greed => seq![
                Level::SlavesToPower,
                Level::GodDamnTheSun,
                Level::AShotInTheDark,
                Level::ClairDeSoleil,
            ],
            Layer::Wrath => seq![
                Level::InTheWakeOfPoseidon,
                Level::WavesOfTheStarlessSea,
                Level::ShipOfFools,
                Level::Leviathan,
            ],
            Layer::Heresy => seq![Level::CryForTheWeeper, Level::AestheticsOfHate, Level::WaitOfTheWorld],
            Layer::Violence => seq![
                Level::GardenOfForkingPaths,
                Level::LightUpTheNight,
                Level::NoSoundNoMemory,
                Level::LikeAntennasToHeaven,
            ],
            Layer::Fraud => Seq::empty(),
            Layer::Treachery => Seq::empty(),
        }
    }

    /// The levels this layer holds, in order; layers not yet released hold
    /// none.
    pub fn get_levels(&self) -> (r: Vec<Level>)
        ensures
            r@ =~= self.levels_spec(),
    {
        match self {
            Layer::Overture => vec![
                Level::IntoTheFire,
                Level::TheMeatgrinder,
                Level::DoubleDown,
                Level::AOneMachineArmy,
                Level::Cerberus,
            ],
            Layer::Limbo => vec![
                Level::HeartOfTheSunrise,
                Level::TheBurningWorld,
                Level::HallsOfSacredRemains,
                Level::ClairDeLune,
            ],
            Layer::Lust => vec![
                Level::Bridgeburner,
                Level::DeathAt20000Volts,
                Level::SheerHeartAttack,
                Level::CourtOfTheCorpseKing,
            ],
            Layer::Gluttony => vec![Level::BellyOfTheBeast, Level::InTheFlesh, Level::SoulSurvivor],
            Layer::Greed => vec![
                Level::SlavesToPower,
                Level::GodDamnTheSun,
                Level::AShotInTheDark,
                Level::ClairDeSoleil,
            ],
            Layer::Wrath => vec![
                Level::InTheWakeOfPoseidon,
                Level::WavesOfTheStarlessSea,
                Level::ShipOfFools,
                Level::Leviathan,
            ],
            Layer::Heresy => vec![Level::CryForTheWeeper, Level::AestheticsOfHate, Level::WaitOfTheWorld],
            Layer::Violence => vec![
                Level::GardenOfForkingPaths,
                Level::LightUpTheNight,
                Level::NoSoundNoMemory,
                Level::LikeAntennasToHeaven,
            ],
            Layer::Fraud => Vec::new(),
            Layer::Treachery => Vec::new(),
        }
    }

    pub open spec fn secret_level_spec(self) -> SecretLevel {
        match self {
            Layer::Overture => SecretLevel::SomethingWicked,
            Layer::Limbo => SecretLevel::TheWitless,
            Layer::Lust => SecretLevel::AllImperfectLoveSong,
            Layer::Gluttony => SecretLevel::SoulSurvivor,
            Layer::Greed => SecretLevel::ClashOfTheBrandicoot,
            Layer::Wrath => SecretLevel::IOnlySayMorning,
            Layer::Heresy => SecretLevel::WaitOfTheWorld,
            Layer::Violence => SecretLevel::UnknownSecret7,
            Layer::Fraud => SecretLevel::UnknownSecret8,
            Layer::Treachery => SecretLevel::UnknownPrime3,
        }
    }

    /// The secret level reached from this layer.
    pub fn get_secret_level(&self) -> (r: SecretLevel)
        ensures
            r == self.secret_level_spec(),
    {
        match self {
            Layer::Overture => SecretLevel::SomethingWicked,
            Layer::Limbo => SecretLevel::TheWitless,
            Layer::Lust => SecretLevel::AllImperfectLoveSong,
            Layer::Gluttony => SecretLevel::SoulSurvivor,
            Layer::Greed => SecretLevel::ClashOfTheBrandicoot,
            Layer::Wrath => SecretLevel::IOnlySayMorning,
            Layer::Heresy => SecretLevel::WaitOfTheWorld,
            Layer::Violence => SecretLevel::UnknownSecret7,
            Layer::Fraud => SecretLevel::UnknownSecret8,
            Layer::Treachery => SecretLevel::UnknownPrime3,
        }
    }
}

impl Level {
    pub open spec fn count_spec() -> int {
        31
    }

    /// Catalog position, in campaign order with the prime sanctums last.
    pub open spec fn index_spec(self) -> int {
        match self {
            Level::IntoTheFire => 0,
            Level::TheMeatgrinder => 1,
            Level::DoubleDown => 2,
            Level::AOneMachineArmy => 3,
            Level::Cerberus => 4,
            Level::HeartOfTheSunrise => 5,
            Level::TheBurningWorld => 6,
            Level::HallsOfSacredRemains => 7,
            Level::ClairDeLune => 8,
            Level::Bridgeburner => 9,
            Level::DeathAt20000Volts => 10,
            Level::SheerHeartAttack => 11,
            Level::CourtOfTheCorpseKing => 12,
            Level::BellyOfTheBeast => 13,
            Level::InTheFlesh => 14,
            Level::SlavesToPower => 15,
            Level::GodDamnTheSun => 16,
            Level::AShotInTheDark => 17,
            Level::ClairDeSoleil => 18,
            Level::InTheWakeOfPoseidon => 19,
            Level::WavesOfTheStarlessSea => 20,
            Level::ShipOfFools => 21,
            Level::Leviathan => 22,
            Level::CryForTheWeeper => 23,
            Level::AestheticsOfHate => 24,
            Level::GardenOfForkingPaths => 25,
            Level::LightUpTheNight => 26,
            Level::NoSoundNoMemory => 27,
            Level::LikeAntennasToHeaven => 28,
            Level::SoulSurvivor => 29,
            Level::WaitOfTheWorld => 30,
        }
    }

    /// The numeric id the consuming runtime knows the level by: campaign
    /// levels count from 1, the prime sanctums hold the special ids 666 and
    /// 667.
    pub open spec fn number_spec(self) -> int {
        if self == Level::SoulSurvivor {
            666
        } else if self == Level::WaitOfTheWorld {
            667
        } else {
            self.index_spec() + 1
        }
    }

    pub open spec fn from_index_spec(i: int) -> Level {
        if i == 0 { Level::IntoTheFire }
        else if i == 1 { Level::TheMeatgrinder }
        else if i == 2 { Level::DoubleDown }
        else if i == 3 { Level::AOneMachineArmy }
        else if i == 4 { Level::Cerberus }
        else if i == 5 { Level::HeartOfTheSunrise }
        else if i == 6 { Level::TheBurningWorld }
        else if i == 7 { Level::HallsOfSacredRemains }
        else if i == 8 { Level::ClairDeLune }
        else if i == 9 { Level::Bridgeburner }
        else if i == 10 { Level::DeathAt20000Volts }
        else if i == 11 { Level::SheerHeartAttack }
        else if i == 12 { Level::CourtOfTheCorpseKing }
        else if i == 13 { Level::BellyOfTheBeast }
        else if i == 14 { Level::InTheFlesh }
        else if i == 15 { Level::SlavesToPower }
        else if i == 16 { Level::GodDamnTheSun }
        else if i == 17 { Level::AShotInTheDark }
        else if i == 18 { Level::ClairDeSoleil }
        else if i == 19 { Level::InTheWakeOfPoseidon }
        else if i == 20 { Level::WavesOfTheStarlessSea }
        else if i == 21 { Level::ShipOfFools }
        else if i == 22 { Level::Leviathan }
        else if i == 23 { Level::CryForTheWeeper }
        else if i == 24 { Level::AestheticsOfHate }
        else if i == 25 { Level::GardenOfForkingPaths }
        else if i == 26 { Level::LightUpTheNight }
        else if i == 27 { Level::NoSoundNoMemory }
        else if i == 28 { Level::LikeAntennasToHeaven }
        else if i == 29 { Level::SoulSurvivor }
        else { Level::WaitOfTheWorld }
    }

    /// The level a numeric id names, if any.
    pub open spec fn from_number_spec(v: int) -> Option<Level> {
        if v == 666 { Some(Level::SoulSurvivor) }
        else if v == 667 { Some(Level::WaitOfTheWorld) }
        else if 1 <= v <= 29 { Some(Level::from_index_spec(v - 1)) }
        else { None }
    }

    /// Catalog positions and numeric ids determine the level.
    pub proof fn lemma_index_number(l: Level)
        ensures
            Level::from_index_spec(l.index_spec()) == l,
            l.index_spec() < 29 ==> l.number_spec() == l.index_spec() + 1,
            Level::from_number_spec(l.number_spec()) == Some(l),
    {
    }

    pub fn index(&self) -> (i: usize)
        ensures
            i == self.index_spec(),
    {
        match self {
            Level::IntoTheFire => 0,
            Level::TheMeatgrinder => 1,
            Level::DoubleDown => 2,
            Level::AOneMachineArmy => 3,
            Level::Cerberus => 4,
            Level::HeartOfTheSunrise => 5,
            Level::TheBurningWorld => 6,
            Level::HallsOfSacredRemains => 7,
            Level::ClairDeLune => 8,
            Level::Bridgeburner => 9,
            Level::DeathAt20000Volts => 10,
            Level::SheerHeartAttack => 11,
            Level::CourtOfTheCorpseKing => 12,
            Level::BellyOfTheBeast => 13,
            Level::InTheFlesh => 14,
            Level::SlavesToPower => 15,
            Level::GodDamnTheSun => 16,
            Level::AShotInTheDark => 17,
            Level::ClairDeSoleil => 18,
            Level::InTheWakeOfPoseidon => 19,
            Level::WavesOfTheStarlessSea => 20,
            Level::ShipOfFools => 21,
            Level::Leviathan => 22,
            Level::CryForTheWeeper => 23,
            Level::AestheticsOfHate => 24,
            Level::GardenOfForkingPaths => 25,
            Level::LightUpTheNight => 26,
            Level::NoSoundNoMemory => 27,
            Level::LikeAntennasToHeaven => 28,
            Level::SoulSurvivor => 29,
            Level::WaitOfTheWorld => 30,
        }
    }

    pub fn from_index(i: usize) -> (r: Level)
        requires
            0 <= i < Level::count_spec(),
        ensures
            r == Level::from_index_spec(i as int),
            r.index_spec() == i,
    {
        match i {
            0 => Level::IntoTheFire,
            1 => Level::TheMeatgrinder,
            2 => Level::DoubleDown,
            3 => Level::AOneMachineArmy,
            4 => Level::Cerberus,
            5 => Level::HeartOfTheSunrise,
            6 => Level::TheBurningWorld,
            7 => Level::HallsOfSacredRemains,
            8 => Level::ClairDeLune,
            9 => Level::Bridgeburner,
            10 => Level::DeathAt20000Volts,
            11 => Level::SheerHeartAttack,
            12 => Level::CourtOfTheCorpseKing,
            13 => Level::BellyOfTheBeast,
            14 => Level::InTheFlesh,
            15 => Level::SlavesToPower,
            16 => Level::GodDamnTheSun,
            17 => Level::AShotInTheDark,
            18 => Level::ClairDeSoleil,
            19 => Level::InTheWakeOfPoseidon,
            20 => Level::WavesOfTheStarlessSea,
            21 => Level::ShipOfFools,
            22 => Level::Leviathan,
            23 => Level::CryForTheWeeper,
            24 => Level::AestheticsOfHate,
            25 => Level::GardenOfForkingPaths,
            26 => Level::LightUpTheNight,
            27 => Level::NoSoundNoMemory,
            28 => Level::LikeAntennasToHeaven,
            29 => Level::SoulSurvivor,
            _ => Level::WaitOfTheWorld,
        }
    }

    pub fn number(&self) -> (n: u16)
        ensures
            n == self.number_spec(),
    {
        match self {
            Level::SoulSurvivor => 666,
            Level::WaitOfTheWorld => 667,
            _ => (self.index() as u16) + 1,
        }
    }

    pub open spec fn is_prime_spec(self) -> bool {
        self == Level::SoulSurvivor || self == Level::WaitOfTheWorld
    }

    /// Whether this level is a prime sanctum.
    pub fn is_prime(&self) -> (r: bool)
        ensures
            r == self.is_prime_spec(),
    {
        match self {
            Level::SoulSurvivor | Level::WaitOfTheWorld => true,
            _ => false,
        }
    }

    pub open spec fn prime_index_spec(self) -> Option<u8> {
        if self == Level::SoulSurvivor {
            Some(0u8)
        } else if self == Level::WaitOfTheWorld {
            Some(1u8)
        } else {
            None
        }
    }

    /// The position of a prime sanctum in a difficulty's lock-status array.
    pub fn get_prime_index(&self) -> (r: Option<u8>)
        ensures
            r == self.prime_index_spec(),
    {
        match self {
            Level::SoulSurvivor => Some(0),
            Level::WaitOfTheWorld => Some(1),
            _ => None,
        }
    }

    /// How many secrets the level hides, fixed per level.
    pub open spec fn secret_count_spec(self) -> u8 {
        match self {
            Level::IntoTheFire => 5,
            Level::TheMeatgrinder => 5,
            Level::DoubleDown => 3,
            Level::AOneMachineArmy => 3,
            Level::Cerberus => 0,
            Level::HeartOfTheSunrise => 5,
            Level::TheBurningWorld => 5,
            Level::HallsOfSacredRemains => 5,
            Level::ClairDeLune => 0,
            Level::Bridgeburner => 5,
            Level::DeathAt20000Volts => 5,
            Level::SheerHeartAttack => 5,
            Level::CourtOfTheCorpseKing => 0,
            Level::BellyOfTheBeast => 5,
            Level::InTheFlesh => 0,
            Level::SlavesToPower => 5,
            Level::GodDamnTheSun => 5,
            Level::AShotInTheDark => 5,
            Level::ClairDeSoleil => 0,
            Level::InTheWakeOfPoseidon => 5,
            Level::WavesOfTheStarlessSea => 5,
            Level::ShipOfFools => 5,
            Level::Leviathan => 0,
            Level::CryForTheWeeper => 5,
            Level::AestheticsOfHate => 0,
            Level::GardenOfForkingPaths => 5,
            Level::LightUpTheNight => 5,
            Level::NoSoundNoMemory => 5,
            Level::LikeAntennasToHeaven => 0,
            Level::SoulSurvivor => 0,
            Level::WaitOfTheWorld => 0,
        }
    }

    pub fn get_secret_count(&self) -> (r: u8)
        ensures
            r == self.secret_count_spec(),
    {
        match self {
            Level::IntoTheFire => 5,
            Level::TheMeatgrinder => 5,
            Level::DoubleDown => 3,
            Level::AOneMachineArmy => 3,
            Level::Cerberus => 0,
            Level::HeartOfTheSunrise => 5,
            Level::TheBurningWorld => 5,
            Level::HallsOfSacredRemains => 5,
            Level::ClairDeLune => 0,
            Level::Bridgeburner => 5,
            Level::DeathAt20000Volts => 5,
            Level::SheerHeartAttack => 5,
            Level::CourtOfTheCorpseKing => 0,
            Level::BellyOfTheBeast => 5,
            Level::InTheFlesh => 0,
            Level::SlavesToPower => 5,
            Level::GodDamnTheSun => 5,
            Level::AShotInTheDark => 5,
            Level::ClairDeSoleil => 0,
            Level::InTheWakeOfPoseidon => 5,
            Level::WavesOfTheStarlessSea => 5,
            Level::ShipOfFools => 5,
            Level::Leviathan => 0,
            Level::CryForTheWeeper => 5,
            Level::AestheticsOfHate => 0,
            Level::GardenOfForkingPaths => 5,
            Level::LightUpTheNight => 5,
            Level::NoSoundNoMemory => 5,
            Level::LikeAntennasToHeaven => 0,
            Level::SoulSurvivor => 0,
            Level::WaitOfTheWorld => 0,
        }
    }

    /// The level a numeric id names: ids 1 to 29 in campaign order, 666 and
    /// 667 for the prime sanctums, nothing otherwise.
    pub fn from_number(v: u32) -> (r: Option<Level>)
        ensures
            r == Level::from_number_spec(v as int),
    {
        if v == 666 {
            Some(Level::SoulSurvivor)
        } else if v == 667 {
            Some(Level::WaitOfTheWorld)
        } else if 1 <= v && v <= 29 {
            Some(Level::from_index((v - 1) as usize))
        } else {
            None
        }
    }
}

impl Default for Level {
    fn default() -> (r: Level)
        ensures
            r == Level::IntoTheFire,
    {
        Level::IntoTheFire
    }
}

impl IntoFileInfix for Level {
    open spec fn infix_spec(&self) -> Seq<char> {
        dec_chars(self.number_spec() as nat)
    }

    fn into_file_infix(&self) -> (r: String) {
        let n = self.number();
        u32_to_string(n as u32)
    }
}

impl VariantCatalog for Level {
    open spec fn count_spec() -> int {
        Level::count_spec()
    }

    open spec fn from_index_spec(i: int) -> Level {
        Level::from_index_spec(i)
    }

    fn count() -> (n: usize) {
        31
    }

    fn from_index(i: usize) -> (r: Level) {
        Level::from_index(i)
    }
}

impl Difficulty {
    /// Read a difficulty back from its wire discriminant in decimal text:
    /// text that is no number a single wire byte can carry is one error, a
    /// number in that range that names no difficulty the other.
    pub fn from_text(s: &str) -> (r: Result<Difficulty, VariantParseError>)
        ensures
            match r {
                Ok(d) => crate::text::parse_u32_spec(s@) matches Some(v) && v < 4 && d
                    == Difficulty::from_index_spec(v as int),
                Err(VariantParseError::ParseIntError) => crate::text::parse_u32_spec(s@) is None
                    || crate::text::parse_u32_spec(s@)->0 > 255,
                Err(VariantParseError::InvalidVariant) => crate::text::parse_u32_spec(s@)
                    matches Some(v) && 4 <= v <= 255,
            },
    {
        match crate::text::parse_u32(s) {
            None => Err(VariantParseError::ParseIntError),
            Some(v) => {
                if v > 255 {
                    Err(VariantParseError::ParseIntError)
                } else if v < 4 {
                    Ok(Difficulty::from_index(v as usize))
                } else {
                    Err(VariantParseError::InvalidVariant)
                }
            },
        }
    }
}

impl core::str::FromStr for Difficulty {
    type Err = VariantParseError;

    fn from_str(s: &str) -> (r: Result<Difficulty, VariantParseError>) {
        Difficulty::from_text(s)
    }
}

impl Level {
    /// Read a level back from its numeric id in decimal text: text that is
    /// no number two wire bytes can carry is one error, a number in that
    /// range that names no level the other.
    pub fn from_text(s: &str) -> (r: Result<Level, VariantParseError>)
        ensures
            match r {
                Ok(l) => crate::text::parse_u32_spec(s@) matches Some(v) && v <= 65535
                    && Level::from_number_spec(v as int) == Some(l),
                Err(VariantParseError::ParseIntError) => crate::text::parse_u32_spec(s@) is None
                    || crate::text::parse_u32_spec(s@)->0 > 65535,
                Err(VariantParseError::InvalidVariant) => crate::text::parse_u32_spec(s@)
                    matches Some(v) && v <= 65535 && Level::from_number_spec(v as int) is None,
            },
    {
        match crate::text::parse_u32(s) {
            None => Err(VariantParseError::ParseIntError),
            Some(v) => {
                if v > 65535 {
                    return Err(VariantParseError::ParseIntError);
                }
                match Level::from_number(v) {
                    Some(l) => Ok(l),
                    None => Err(VariantParseError::InvalidVariant),
                }
            },
        }
    }
}

impl core::str::FromStr for Level {
    type Err = VariantParseError;

    fn from_str(s: &str) -> (r: Result<Level, VariantParseError>) {
        Level::from_text(s)
    }
}

} // verus!
