//! The vocabulary of the registry: errors, tiers, identity records,
//! configuration, and the badge drawn for a record.

use vstd::prelude::*;

verus! {

/// Every way an operation of the registry can fail.
#[derive(Copy, Clone, Debug, PartialEq, Eq, Structural, PartialOrd, Ord)]
pub enum Error {
    AlreadyHasIdentity,
    NoIdentityFound,
    InvalidTier,
    InvalidNonce,
    InvalidSignature,
    InsufficientPayment,
    TransferNotAllowed,
    EmptyUsername,
    NotInitialized,
    NotAdmin,
    TokenNotFound,
    AccessControlError,
    Unauthorized,
    AlreadyInitialized,
}

impl Error {
    /// The number under which the host reports this error.
    pub open spec fn spec_code(self) -> u32 {
        match self {
            Error::AlreadyHasIdentity => 1,
            Error::NoIdentityFound => 2,
            Error::InvalidTier => 3,
            Error::InvalidNonce => 4,
            Error::InvalidSignature => 5,
            Error::InsufficientPayment => 6,
            Error::TransferNotAllowed => 7,
            Error::EmptyUsername => 8,
            Error::NotInitialized => 9,
            Error::NotAdmin => 10,
            Error::TokenNotFound => 11,
            Error::AccessControlError => 12,
            Error::Unauthorized => 13,
            Error::AlreadyInitialized => 14,
        }
    }

    /// The number under which the host reports this error.
    pub fn code(&self) -> (n: u32)
        ensures
            n == self.spec_code(),
    {
        match self {
            Error::AlreadyHasIdentity => 1,
            Error::NoIdentityFound => 2,
            Error::InvalidTier => 3,
            Error::InvalidNonce => 4,
            Error::InvalidSignature => 5,
            Error::InsufficientPayment => 6,
            Error::TransferNotAllowed => 7,
            Error::EmptyUsername => 8,
            Error::NotInitialized => 9,
            Error::NotAdmin => 10,
            Error::TokenNotFound => 11,
            Error::AccessControlError => 12,
            Error::Unauthorized => 13,
            Error::AlreadyInitialized => 14,
        }
    }
}

/// The identity of a holder, an administrator or a delegate: an opaque
/// string of bytes, compared byte by byte.
#[derive(Debug, PartialEq, Eq)]
pub struct Address {
    bytes: Vec<u8>,
}

impl View for Address {
    type V = Seq<u8>;

    closed spec fn view(&self) -> Seq<u8> {
        self.bytes@
    }
}

impl Clone for Address {
    fn clone(&self) -> (res: Self)
        ensures
            res@ == self@,
    {
        Address { bytes: self.bytes.clone() }
    }
}

impl Address {
    /// The identity written as `bytes`.
    pub fn from_bytes(bytes: Vec<u8>) -> (res: Self)
        ensures
            res@ == bytes@,
    {
        Address { bytes }
    }

    /// The bytes of this identity.
    pub fn as_bytes(&self) -> (res: &Vec<u8>)
        ensures
            res@ == self@,
    {
        &self.bytes
    }

    /// Whether two identities are the same one.
    pub fn same(&self, other: &Address) -> (res: bool)
        ensures
            res == (self@ == other@),
    {
        if self.bytes.len() != other.bytes.len() {
            return false;
        }
        let mut i: usize = 0;
        while i < self.bytes.len()
            invariant
                self.bytes.len() == other.bytes.len(),
                i <= self.bytes.len(),
                forall|j: int| 0 <= j < i ==> self.bytes@[j] == other.bytes@[j],
            decreases self.bytes.len() - i,
        {
            if self.bytes[i] != other.bytes[i] {
                return false;
            }
            i += 1;
        }
        assert(self.bytes@ =~= other.bytes@);
        true
    }
}

/// The classification of a holder by contribution count, in ascending order
/// of reputation.
#[derive(Copy, Clone, Debug, PartialEq, Eq, Structural)]
pub enum Tier {
    Novice,
    Pro,
    Architect,
    Legend,
    Singularity,
}

/// The tier that a contribution count earns.
pub open spec fn tier_of(contributions: u32) -> Tier {
    if contributions < 200 {
        Tier::Novice
    } else if contributions < 1000 {
        Tier::Pro
    } else if contributions < 3000 {
        Tier::Architect
    } else if contributions < 5000 {
        Tier::Legend
    } else {
        Tier::Singularity
    }
}

impl Tier {
    /// The position of the tier in the ascending order, from 1.
    pub open spec fn rank(self) -> u8 {
        match self {
            Tier::Novice => 1,
            Tier::Pro => 2,
            Tier::Architect => 3,
            Tier::Legend => 4,
            Tier::Singularity => 5,
        }
    }

    /// The name of the tier as it is written on a badge.
    pub open spec fn name(self) -> Seq<char> {
        match self {
            Tier::Novice => "Novice"@,
            Tier::Pro => "Pro"@,
            Tier::Architect => "Architect"@,
            Tier::Legend => "Legend"@,
            Tier::Singularity => "Singularity"@,
        }
    }

    /// The colour that stands for the tier in listings.
    pub open spec fn color(self) -> Seq<char> {
        match self {
            Tier::Novice => "#CD7F32"@,
            Tier::Pro => "#C0C0C0"@,
            Tier::Architect => "#FFD700"@,
            Tier::Legend => "#E5E4E2"@,
            Tier::Singularity => "#39FF14"@,
        }
    }

    /// Classifies a contribution count.
    pub fn from_contributions(contributions: u32) -> (tier: Self)
        ensures
            tier == tier_of(contributions),
    {
        if contributions >= 5000 {
            Tier::Singularity
        } else if contributions >= 3000 {
            Tier::Legend
        } else if contributions >= 1000 {
            Tier::Architect
        } else if contributions >= 200 {
            Tier::Pro
        } else {
            Tier::Novice
        }
    }

    /// The position of the tier in the ascending order, from 1.
    pub fn to_number(&self) -> (n: u8)
        ensures
            n == self.rank(),
    {
        match self {
            Tier::Novice => 1,
            Tier::Pro => 2,
            Tier::Architect => 3,
            Tier::Legend => 4,
            Tier::Singularity => 5,
        }
    }

    /// The name of the tier.
    pub fn to_string(&self) -> (s: String)
        ensures
            s@ == self.name(),
    {
        match self {
            Tier::Novice => "Novice".to_owned(),
            Tier::Pro => "Pro".to_owned(),
            Tier::Architect => "Architect".to_owned(),
            Tier::Legend => "Legend".to_owned(),
            Tier::Singularity => "Singularity".to_owned(),
        }
    }

    /// The colour that stands for the tier in listings.
    pub fn to_color(&self) -> (s: String)
        ensures
            s@ == self.color(),
    {
        match self {
            Tier::Novice => "#CD7F32".to_owned(),
            Tier::Pro => "#C0C0C0".to_owned(),
            Tier::Architect => "#FFD700".to_owned(),
            Tier::Legend => "#E5E4E2".to_owned(),
            Tier::Singularity => "#39FF14".to_owned(),
        }
    }
}

impl Tier {
    /// The colour that fills the badge of the tier.
    pub open spec fn badge_fill(self) -> Seq<char> {
        match self {
            Tier::Novice => "#b0c4de"@,
            Tier::Pro => "#90ee90"@,
            Tier::Architect => "#ffd700"@,
            Tier::Legend => "#ff8c00"@,
            Tier::Singularity => "#8a2be2"@,
        }
    }

    /// The colour of the lettering on the badge of the tier: dark on the
    /// three lower tiers, white on the two upper ones.
    pub open spec fn badge_ink(self) -> Seq<char> {
        match self {
            Tier::Novice | Tier::Pro | Tier::Architect => "#181c2f"@,
            Tier::Legend | Tier::Singularity => "#fff"@,
        }
    }
}

/// The badge of a tier: a rectangle of 350 by 200 in the tier's fill colour,
/// with the tier's name centred on it.
pub open spec fn badge_of(tier: Tier) -> Seq<char> {
    "<svg xmlns='http://www.w3.org/2000/svg' width='350' height='200'><rect width='100%' height='100%' fill='"@
        + tier.badge_fill() + "'/><text x='50%' y='100' font-size='24' fill='"@
        + tier.badge_ink() + "' text-anchor='middle'>"@ + tier.name() + "</text></svg>"@
}

/// Classification is monotonic: more contributions never earn a lower tier.
pub proof fn lemma_tier_monotonic(fewer: u32, more: u32)
    requires
        fewer <= more,
    ensures
        tier_of(fewer).rank() <= tier_of(more).rank(),
{
}

/// Each tier is earned on exactly one interval of contribution counts, and
/// the intervals meet at 200, 1000, 3000 and 5000.
pub proof fn lemma_tier_boundaries(contributions: u32)
    ensures
        tier_of(contributions) == Tier::Novice <==> contributions < 200,
        tier_of(contributions) == Tier::Pro <==> 200 <= contributions < 1000,
        tier_of(contributions) == Tier::Architect <==> 1000 <= contributions < 3000,
        tier_of(contributions) == Tier::Legend <==> 3000 <= contributions < 5000,
        tier_of(contributions) == Tier::Singularity <==> 5000 <= contributions,
{
}

/// The identity record of one token.
#[derive(Debug, PartialEq, Eq)]
pub struct GithubData {
    pub username: String,
    pub contributions: u32,
    pub tier: Tier,
    pub minted_at: u64,
    pub updated_at: u64,
    pub proof_data: Vec<u8>,
}

/// What an identity record holds.
pub struct GithubDataView {
    pub username: Seq<char>,
    pub contributions: u32,
    pub tier: Tier,
    pub minted_at: u64,
    pub updated_at: u64,
    pub proof_data: Seq<u8>,
}

impl View for GithubData {
    type V = GithubDataView;

    open spec fn view(&self) -> GithubDataView {
        GithubDataView {
            username: self.username@,
            contributions: self.contributions,
            tier: self.tier,
            minted_at: self.minted_at,
            updated_at: self.updated_at,
            proof_data: self.proof_data@,
        }
    }
}

impl Clone for GithubData {
    fn clone(&self) -> (res: Self)
        ensures
            res@ == self@,
    {
        GithubData {
            username: self.username.clone(),
            contributions: self.contributions,
            tier: self.tier,
            minted_at: self.minted_at,
            updated_at: self.updated_at,
            proof_data: self.proof_data.clone(),
        }
    }
}

/// The global configuration of the registry.
#[derive(Debug, PartialEq, Eq)]
pub struct Config {
    pub admin: Address,
    pub access_control: Address,
    pub treasury: Address,
    pub mint_fee: i128,
}

/// What a configuration holds.
pub struct ConfigView {
    pub admin: Seq<u8>,
    pub access_control: Seq<u8>,
    pub treasury: Seq<u8>,
    pub mint_fee: i128,
}

impl View for Config {
    type V = ConfigView;

    open spec fn view(&self) -> ConfigView {
        ConfigView {
            admin: self.admin@,
            access_control: self.access_control@,
            treasury: self.treasury@,
            mint_fee: self.mint_fee,
        }
    }
}

impl Clone for Config {
    fn clone(&self) -> (res: Self)
        ensures
            res@ == self@,
    {
        Config {
            admin: self.admin.clone(),
            access_control: self.access_control.clone(),
            treasury: self.treasury.clone(),
            mint_fee: self.mint_fee,
        }
    }
}

/// The badge of each tier, written out in full.
pub proof fn lemma_badge_literals()
    ensures
        badge_of(Tier::Novice)
            == "<svg xmlns='http://www.w3.org/2000/svg' width='350' height='200'><rect width='100%' height='100%' fill='#b0c4de'/><text x='50%' y='100' font-size='24' fill='#181c2f' text-anchor='middle'>Novice</text></svg>"@,
        badge_of(Tier::Pro)
            == "<svg xmlns='http://www.w3.org/2000/svg' width='350' height='200'><rect width='100%' height='100%' fill='#90ee90'/><text x='50%' y='100' font-size='24' fill='#181c2f' text-anchor='middle'>Pro</text></svg>"@,
        badge_of(Tier::Architect)
            == "<svg xmlns='http://www.w3.org/2000/svg' width='350' height='200'><rect width='100%' height='100%' fill='#ffd700'/><text x='50%' y='100' font-size='24' fill='#181c2f' text-anchor='middle'>Architect</text></svg>"@,
        badge_of(Tier::Legend)
            == "<svg xmlns='http://www.w3.org/2000/svg' width='350' height='200'><rect width='100%' height='100%' fill='#ff8c00'/><text x='50%' y='100' font-size='24' fill='#fff' text-anchor='middle'>Legend</text></svg>"@,
        badge_of(Tier::Singularity)
            == "<svg xmlns='http://www.w3.org/2000/svg' width='350' height='200'><rect width='100%' height='100%' fill='#8a2be2'/><text x='50%' y='100' font-size='24' fill='#fff' text-anchor='middle'>Singularity</text></svg>"@,
{
    reveal_strlit("<svg xmlns='http://www.w3.org/2000/svg' width='350' height='200'><rect width='100%' height='100%' fill='");
    reveal_strlit("'/><text x='50%' y='100' font-size='24' fill='");
    reveal_strlit("' text-anchor='middle'>");
    reveal_strlit("</text></svg>");
    reveal_strlit("#181c2f");
    reveal_strlit("#fff");
    reveal_strlit("Novice");
    reveal_strlit("#b0c4de");
    reveal_strlit("<svg xmlns='http://www.w3.org/2000/svg' width='350' height='200'><rect width='100%' height='100%' fill='#b0c4de'/><text x='50%' y='100' font-size='24' fill='#181c2f' text-anchor='middle'>Novice</text></svg>");
    reveal_strlit("Pro");
    reveal_strlit("#90ee90");
    reveal_strlit("<svg xmlns='http://www.w3.org/2000/svg' width='350' height='200'><rect width='100%' height='100%' fill='#90ee90'/><text x='50%' y='100' font-size='24' fill='#181c2f' text-anchor='middle'>Pro</text></svg>");
    reveal_strlit("Architect");
    reveal_strlit("#ffd700");
    reveal_strlit("<svg xmlns='http://www.w3.org/2000/svg' width='350' height='200'><rect width='100%' height='100%' fill='#ffd700'/><text x='50%' y='100' font-size='24' fill='#181c2f' text-anchor='middle'>Architect</text></svg>");
    reveal_strlit("Legend");
    reveal_strlit("#ff8c00");
    reveal_strlit("<svg xmlns='http://www.w3.org/2000/svg' width='350' height='200'><rect width='100%' height='100%' fill='#ff8c00'/><text x='50%' y='100' font-size='24' fill='#fff' text-anchor='middle'>Legend</text></svg>");
    reveal_strlit("Singularity");
    reveal_strlit("#8a2be2");
    reveal_strlit("<svg xmlns='http://www.w3.org/2000/svg' width='350' height='200'><rect width='100%' height='100%' fill='#8a2be2'/><text x='50%' y='100' font-size='24' fill='#fff' text-anchor='middle'>Singularity</text></svg>");
    assert(badge_of(Tier::Novice)
        =~= "<svg xmlns='http://www.w3.org/2000/svg' width='350' height='200'><rect width='100%' height='100%' fill='#b0c4de'/><text x='50%' y='100' font-size='24' fill='#181c2f' text-anchor='middle'>Novice</text></svg>"@);
    assert(badge_of(Tier::Pro)
        =~= "<svg xmlns='http://www.w3.org/2000/svg' width='350' height='200'><rect width='100%' height='100%' fill='#90ee90'/><text x='50%' y='100' font-size='24' fill='#181c2f' text-anchor='middle'>Pro</text></svg>"@);
    assert(badge_of(Tier::Architect)
        =~= "<svg xmlns='http://www.w3.org/2000/svg' width='350' height='200'><rect width='100%' height='100%' fill='#ffd700'/><text x='50%' y='100' font-size='24' fill='#181c2f' text-anchor='middle'>Architect</text></svg>"@);
    assert(badge_of(Tier::Legend)
        =~= "<svg xmlns='http://www.w3.org/2000/svg' width='350' height='200'><rect width='100%' height='100%' fill='#ff8c00'/><text x='50%' y='100' font-size='24' fill='#fff' text-anchor='middle'>Legend</text></svg>"@);
    assert(badge_of(Tier::Singularity)
        =~= "<svg xmlns='http://www.w3.org/2000/svg' width='350' height='200'><rect width='100%' height='100%' fill='#8a2be2'/><text x='50%' y='100' font-size='24' fill='#fff' text-anchor='middle'>Singularity</text></svg>"@);
}

/// Draws the badge of a record. The badge depends on the record's tier alone.
pub fn generate_svg(data: &GithubData) -> (svg: String)
    ensures
        svg@ == badge_of(data.tier),
{
    proof {
        lemma_badge_literals();
    }
    match data.tier {
        Tier::Novice => "<svg xmlns='http://www.w3.org/2000/svg' width='350' height='200'><rect width='100%' height='100%' fill='#b0c4de'/><text x='50%' y='100' font-size='24' fill='#181c2f' text-anchor='middle'>Novice</text></svg>".to_owned(),
        Tier::Pro => "<svg xmlns='http://www.w3.org/2000/svg' width='350' height='200'><rect width='100%' height='100%' fill='#90ee90'/><text x='50%' y='100' font-size='24' fill='#181c2f' text-anchor='middle'>Pro</text></svg>".to_owned(),
        Tier::Architect => "<svg xmlns='http://www.w3.org/2000/svg' width='350' height='200'><rect width='100%' height='100%' fill='#ffd700'/><text x='50%' y='100' font-size='24' fill='#181c2f' text-anchor='middle'>Architect</text></svg>".to_owned(),
        Tier::Legend => "<svg xmlns='http://www.w3.org/2000/svg' width='350' height='200'><rect width='100%' height='100%' fill='#ff8c00'/><text x='50%' y='100' font-size='24' fill='#fff' text-anchor='middle'>Legend</text></svg>".to_owned(),
        Tier::Singularity => "<svg xmlns='http://www.w3.org/2000/svg' width='350' height='200'><rect width='100%' height='100%' fill='#8a2be2'/><text x='50%' y='100' font-size='24' fill='#fff' text-anchor='middle'>Singularity</text></svg>".to_owned(),
    }
}

} // verus!
