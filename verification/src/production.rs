//! Production: virtual stage bookings, consent-enforced AI generation and
//! metaverse export.

use vstd::prelude::*;
use crate::utils::{
    parsed_region,
    generate_id, uuid_string, uuid_text, CommonsError, CommonsResult, HubId, ProjectId, Region,
    Timestamp,
};

verus! {

#[derive(Debug, Clone)]
pub enum ProjectType {
    Film,
    Television,
    Music,
    Theater,
    Digital,
    Other(String),
}

/// Project information.
#[derive(Debug, Clone)]
pub struct Project {
    pub id: ProjectId,
    pub title: String,
    pub project_type: ProjectType,
    pub start_date: Timestamp,
    pub end_date: Timestamp,
}

#[derive(Debug, Clone, Copy, PartialEq, Eq, Structural)]
pub enum ResourceType {
    PhysicalStage,
    VirtualStage,
    ARStage,
    Equipment,
    EditingSuite,
    RecordingStudio,
}

/// Booking for virtual/physical resources.
#[derive(Debug, Clone)]
pub struct Booking {
    pub id: u128,
    pub project: Project,
    pub hub_id: HubId,
    pub resource_type: ResourceType,
    pub start_time: Timestamp,
    pub end_time: Timestamp,
    /// Percentage saved against traditional production.
    pub cost_reduction_percent: u32,
}

/// Creative input for AI generation.
#[derive(Debug, Clone)]
pub struct CreativeInput {
    pub prompt: String,
    pub style: String,
    pub consent_verified: bool,
    pub attribution_required: bool,
}

/// AI-generated assets.
#[derive(Debug, Clone)]
pub struct GeneratedAssets {
    pub assets: Vec<String>,
    pub consent_log: Vec<String>,
    pub attribution: Vec<String>,
}

pub struct ProductionSystem {
    region: Region,
    bookings: Vec<Booking>,
}

/// The views of a list of strings.
pub open spec fn texts(v: Seq<String>) -> Seq<Seq<char>> {
    v.map_values(|s: String| s@)
}

/// `b` books a virtual stage (an AR stage in AR mode) as `booking_id` at
/// hub `hub_id` for the project's dates, saving 60% against a traditional
/// stage, 65% in AR mode.
pub open spec fn stage_booking(b: Booking, project: Project, ar_mode: bool, booking_id: u128, hub_id: HubId) -> bool {
    &&& b.id == booking_id
    &&& b.project == project
    &&& b.hub_id == hub_id
    &&& b.resource_type == (if ar_mode {
        ResourceType::ARStage
    } else {
        ResourceType::VirtualStage
    })
    &&& b.start_time == project.start_date
    &&& b.end_time == project.end_date
    &&& b.cost_reduction_percent == (if ar_mode { 65u32 } else { 60u32 })
}

/// The file name of a generated asset: its id, then `suffix`.
pub open spec fn asset_name(id: u128, suffix: Seq<char>) -> Seq<char> {
    "AI_ASSET_"@ + uuid_text(id) + suffix
}

/// What every consented generation logs.
pub open spec fn consent_entries() -> Seq<Seq<char>> {
    seq!["Consent verified at generation time"@, "No copyrighted material detected"@]
}

/// `g` is the result of a consented generation run of `input` whose two
/// assets carry the ids `first` and `second`.
pub open spec fn generation_of(g: GeneratedAssets, input: CreativeInput, first: u128, second: u128) -> bool {
    &&& texts(g.assets@) == seq![asset_name(first, "_1.png"@), asset_name(second, "_2.png"@)]
    &&& g.assets@.len() == 2
    &&& texts(g.consent_log@) == consent_entries()
    &&& g.consent_log@.len() == 2
    &&& texts(g.attribution@) == if input.attribution_required {
        seq!["Generated using Studio Commons AI tools"@, "Style: "@ + input.style@]
    } else {
        Seq::empty()
    }
    &&& g.attribution@.len() == if input.attribution_required { 2nat } else { 0nat }
}

impl ProjectType {
    pub fn duplicate(&self) -> (r: ProjectType)
        ensures
            r == *self,
    {
        match self {
            ProjectType::Film => ProjectType::Film,
            ProjectType::Television => ProjectType::Television,
            ProjectType::Music => ProjectType::Music,
            ProjectType::Theater => ProjectType::Theater,
            ProjectType::Digital => ProjectType::Digital,
            ProjectType::Other(s) => ProjectType::Other(s.clone()),
        }
    }
}

impl Project {
    pub fn duplicate(&self) -> (r: Project)
        ensures
            r == *self,
    {
        Project {
            id: self.id,
            title: self.title.clone(),
            project_type: self.project_type.duplicate(),
            start_date: self.start_date,
            end_date: self.end_date,
        }
    }
}

impl Booking {
    pub fn duplicate(&self) -> (r: Booking)
        ensures
            r == *self,
    {
        Booking {
            id: self.id,
            project: self.project.duplicate(),
            hub_id: self.hub_id,
            resource_type: self.resource_type,
            start_time: self.start_time,
            end_time: self.end_time,
            cost_reduction_percent: self.cost_reduction_percent,
        }
    }
}

impl ProductionSystem {
    pub closed spec fn bookings(&self) -> Seq<Booking> {
        self.bookings@
    }

    /// The region the system serves.
    pub closed spec fn region(&self) -> Region {
        self.region
    }

    /// An empty production system for the region named `region`, parsed as
    /// `Region::from_str` parses it.
    pub fn new(region: &str) -> (r: CommonsResult<ProductionSystem>)
        ensures
            r matches Ok(p) && p.bookings().len() == 0 && parsed_region(region@, p.region()),
    {
        Ok(ProductionSystem { region: Region::from_str(region), bookings: Vec::new() })
    }

    /// Book a virtual stage (an AR stage in AR mode) at hub `hub_id` for the
    /// project's dates: 60% cheaper than a traditional stage, 65% in AR mode.
    pub fn ai_virtual_stage_with(
        &mut self,
        project: Project,
        ar_mode: bool,
        booking_id: u128,
        hub_id: HubId,
    ) -> (r: CommonsResult<Booking>)
        ensures
            r matches Ok(b) && stage_booking(b, project, ar_mode, booking_id, hub_id)
                && final(self).bookings() == old(self).bookings().push(b),
    {
        let resource_type = if ar_mode {
            ResourceType::ARStage
        } else {
            ResourceType::VirtualStage
        };
        let cost_reduction_percent: u32 = if ar_mode { 65 } else { 60 };
        let start_time = project.start_date;
        let end_time = project.end_date;
        let booking = Booking {
            id: booking_id,
            project,
            hub_id,
            resource_type,
            start_time,
            end_time,
            cost_reduction_percent,
        };
        let returned = booking.duplicate();
        self.bookings.push(booking);
        Ok(returned)
    }

    /// Book a virtual stage (an AR stage in AR mode) at a newly assigned hub.
    pub fn ai_virtual_stage(&mut self, project: Project, ar_mode: bool) -> (r: CommonsResult<
        Booking,
    >)
        ensures
            r matches Ok(b) && stage_booking(b, project, ar_mode, b.id, b.hub_id)
                && final(self).bookings() == old(self).bookings().push(b),
    {
        let booking_id = generate_id();
        let hub_id = generate_id();
        self.ai_virtual_stage_with(project, ar_mode, booking_id, hub_id)
    }

    /// AI generation with consent enforcement: refused without verified
    /// consent; otherwise two assets named after `first` and `second`, a
    /// consent log, and an attribution when one is required.
    pub fn ethical_ai_gen_with(&self, input: CreativeInput, first: u128, second: u128) -> (r:
        CommonsResult<GeneratedAssets>)
        ensures
            !input.consent_verified ==> r == Err::<GeneratedAssets, CommonsError>(
                CommonsError::ConsentRequired,
            ),
            input.consent_verified ==> (r matches Ok(g) && generation_of(g, input, first, second)),
    {
        if !input.consent_verified {
            return Err(CommonsError::ConsentRequired);
        }
        let mut a1 = String::from_str("AI_ASSET_");
        a1.append(uuid_string(first).as_str());
        a1.append("_1.png");
        let mut a2 = String::from_str("AI_ASSET_");
        a2.append(uuid_string(second).as_str());
        a2.append("_2.png");
        let mut assets: Vec<String> = Vec::new();
        assets.push(a1);
        assets.push(a2);
        let mut consent_log: Vec<String> = Vec::new();
        consent_log.push(String::from_str("Consent verified at generation time"));
        consent_log.push(String::from_str("No copyrighted material detected"));
        let mut attribution: Vec<String> = Vec::new();
        if input.attribution_required {
            attribution.push(String::from_str("Generated using Studio Commons AI tools"));
            let mut style = String::from_str("Style: ");
            style.append(input.style.as_str());
            attribution.push(style);
        }
        proof {
            assert(texts(assets@) =~= seq![
                asset_name(first, "_1.png"@),
                asset_name(second, "_2.png"@),
            ]);
            assert(texts(consent_log@) =~= consent_entries());
            if input.attribution_required {
                assert(texts(attribution@) =~= seq![
                    "Generated using Studio Commons AI tools"@,
                    "Style: "@ + input.style@,
                ]);
            } else {
                assert(texts(attribution@) =~= Seq::<Seq<char>>::empty());
            }
        }
        Ok(GeneratedAssets { assets, consent_log, attribution })
    }

    /// AI generation with consent enforcement, under fresh asset ids.
    pub fn ethical_ai_gen(&self, input: CreativeInput) -> (r: CommonsResult<GeneratedAssets>)
        ensures
            !input.consent_verified ==> r == Err::<GeneratedAssets, CommonsError>(
                CommonsError::ConsentRequired,
            ),
            input.consent_verified ==> (r matches Ok(g) && exists|first: u128, second: u128|
                #[trigger] generation_of(g, input, first, second)),
    {
        let first = generate_id();
        let second = generate_id();
        let r = self.ethical_ai_gen_with(input, first, second);
        proof {
            if input.consent_verified {
                let g = r->Ok_0;
                assert(generation_of(g, input, first, second));
            }
        }
        r
    }

    /// The bookings made at one hub, in booking order.
    pub fn bookings_for_hub(&self, hub_id: HubId) -> (r: Vec<&Booking>)
        ensures
            r@.map_values(|b: &Booking| *b) == self.bookings().filter(|b: Booking| b.hub_id == hub_id),
    {
        let ghost bs = self.bookings@;
        let ghost pred = |b: Booking| b.hub_id == hub_id;
        let mut r: Vec<&Booking> = Vec::new();
        let mut i: usize = 0;
        while i < self.bookings.len()
            invariant
                bs == self.bookings@,
                pred == (|b: Booking| b.hub_id == hub_id),
                i <= bs.len(),
                r@.map_values(|b: &Booking| *b) == bs.subrange(0, i as int).filter(pred),
            decreases bs.len() - i,
        {
            proof {
                reveal_with_fuel(Seq::<_>::filter, 1);
                assert(bs.subrange(0, i + 1).drop_last() =~= bs.subrange(0, i as int));
            }
            if self.bookings[i].hub_id == hub_id {
                r.push(&self.bookings[i]);
            }
            assert(r@.map_values(|b: &Booking| *b) =~= bs.subrange(0, i + 1).filter(pred));
            i = i + 1;
        }
        assert(bs.subrange(0, i as int) =~= bs);
        r
    }

    /// The export link for assets sent to the metaverse under `id`.
    pub fn vr_metaverse_export_with(&self, assets: Vec<String>, id: u128) -> (r: CommonsResult<
        String,
    >)
        ensures
            r matches Ok(link) && link@ == "https://metaverse.studiocommons.org/export/"@
                + uuid_text(id),
    {
        let mut link = String::from_str("https://metaverse.studiocommons.org/export/");
        link.append(uuid_string(id).as_str());
        Ok(link)
    }

    /// Export assets to metaverse platforms under a fresh export id.
    pub fn vr_metaverse_export(&self, assets: Vec<String>) -> (r: CommonsResult<String>)
        ensures
            r matches Ok(link) && exists|id: u128|
                link@ == "https://metaverse.studiocommons.org/export/"@ + #[trigger] uuid_text(id),
    {
        let id = generate_id();
        self.vr_metaverse_export_with(assets, id)
    }

    pub fn get_bookings(&self) -> (r: &[Booking])
        ensures
            r@ == self.bookings(),
    {
        self.bookings.as_slice()
    }
}

impl Default for ProductionSystem {
    fn default() -> (r: ProductionSystem)
        ensures
            r.bookings().len() == 0,
    {
        ProductionSystem { region: Region::LA, bookings: Vec::new() }
    }
}

} // verus!
