//! Jurisdiction rules: what each region requires of data handling, payment,
//! employment, unions, wages and taxes.

use vstd::prelude::*;
use crate::utils::{debug_string, debug_text, parsed_region, CommonsResult, Region};

verus! {

/// Compliance check result.
#[derive(Debug, Clone)]
pub struct ComplianceResult {
    pub region: Region,
    pub action: String,
    pub compliant: bool,
    pub requirements: Vec<String>,
    pub warnings: Vec<String>,
}

/// Legal action types.
#[derive(Debug, Clone)]
pub enum Action {
    DataCollection,
    DataStorage,
    MemberRegistration,
    Payment,
    ContentDistribution,
    EmploymentContract,
    Other(String),
}

/// Wage scale configuration.
#[derive(Debug, Clone)]
pub struct WageScale {
    pub region: Region,
    pub minimum_hourly: u128,
    pub union_compatible: bool,
    pub living_wage_certified: bool,
}

/// Union integration rules.
#[derive(Debug, Clone)]
pub struct UnionRules {
    pub region: Region,
    pub unions: Vec<String>,
    pub mandatory: bool,
    pub collective_bargaining: bool,
}

pub struct ComplianceSystem {
    region: Region,
}

/// The views of a list of strings.
pub open spec fn texts(v: Seq<String>) -> Seq<Seq<char>> {
    v.map_values(|s: String| s@)
}

/// How an action prints with `{:?}`.
pub open spec fn action_text(a: Action) -> Seq<char> {
    match a {
        Action::DataCollection => "DataCollection"@,
        Action::DataStorage => "DataStorage"@,
        Action::MemberRegistration => "MemberRegistration"@,
        Action::Payment => "Payment"@,
        Action::ContentDistribution => "ContentDistribution"@,
        Action::EmploymentContract => "EmploymentContract"@,
        Action::Other(s) => "Other("@ + debug_text(s@) + ")"@,
    }
}

/// What a region requires for an action.
pub open spec fn jurisdiction_requirements(region: Region, action: Action) -> Seq<Seq<char>> {
    match region {
        Region::Berlin | Region::London => seq![
            "GDPR data protection requirements"@,
            "Right to be forgotten implementation"@,
            "Data sovereignty (EU servers)"@,
        ] + if action is DataCollection || action is DataStorage {
            seq!["Explicit consent required"@, "Privacy impact assessment"@]
        } else {
            Seq::empty()
        },
        Region::Mumbai => seq![
            "IT Act 2000 compliance"@,
            "Data localization for sensitive data"@,
        ] + if action is Payment {
            seq!["RBI payment guidelines"@]
        } else {
            Seq::empty()
        },
        Region::LA | Region::NYC | Region::Atlanta => seq!["IRS tax reporting"@] + if action is DataCollection {
            seq!["CCPA compliance (California)"@]
        } else {
            Seq::empty()
        } + if action is EmploymentContract {
            seq!["Fair Labor Standards Act"@]
        } else {
            Seq::empty()
        },
        _ => Seq::empty(),
    }
}

/// Regions without specific rules get a warning.
pub open spec fn jurisdiction_warnings(region: Region) -> Seq<Seq<char>> {
    match region {
        Region::Berlin | Region::London | Region::Mumbai | Region::LA | Region::NYC
        | Region::Atlanta => Seq::empty(),
        _ => seq!["Using default compliance rules"@],
    }
}

/// Unions a region works with: (unions, mandatory, collective bargaining).
pub open spec fn union_rules_of(region: Region) -> (Seq<Seq<char>>, bool, bool) {
    match region {
        Region::LA | Region::NYC => (
            seq!["SAG-AFTRA"@, "DGA"@, "WGA"@, "IATSE"@],
            true,
            true,
        ),
        Region::Berlin | Region::London => (
            seq!["Ver.di (Germany)"@, "BECTU (UK)"@],
            false,
            true,
        ),
        Region::Mumbai => (seq!["FWICE"@, "Cine & TV Artistes' Association"@], false, true),
        _ => (Seq::empty(), false, false),
    }
}

/// Minimum hourly wage (minor units), union compatibility and living-wage
/// certification of a region.
pub open spec fn wage_scale_of(region: Region) -> (u128, bool, bool) {
    match region {
        Region::LA | Region::NYC => (2000, true, true),
        Region::Berlin => (1500, true, true),
        Region::Mumbai => (30000, true, true),
        _ => (1500, false, false),
    }
}

/// Tax reporting requirements of a region.
pub open spec fn tax_requirements_of(region: Region) -> Seq<Seq<char>> {
    match region {
        Region::LA | Region::NYC | Region::Atlanta => seq![
            "IRS Form 1099 for contractors"@,
            "W-2 for employees"@,
            "Quarterly estimated taxes"@,
        ],
        Region::Berlin => seq![
            "German tax ID (Steuernummer)"@,
            "VAT registration"@,
            "Annual tax returns"@,
        ],
        Region::Mumbai => seq!["PAN card requirement"@, "GST registration"@, "TDS compliance"@],
        _ => seq!["Consult local tax authority"@],
    }
}

impl Action {
    /// The action as `{:?}` prints it.
    pub fn debug_name(&self) -> (r: String)
        ensures
            r@ == action_text(*self),
    {
        match self {
            Action::DataCollection => String::from_str("DataCollection"),
            Action::DataStorage => String::from_str("DataStorage"),
            Action::MemberRegistration => String::from_str("MemberRegistration"),
            Action::Payment => String::from_str("Payment"),
            Action::ContentDistribution => String::from_str("ContentDistribution"),
            Action::EmploymentContract => String::from_str("EmploymentContract"),
            Action::Other(s) => {
                let mut r = String::from_str("Other(");
                let quoted = debug_string(s.as_str());
                r.append(quoted.as_str());
                r.append(")");
                r
            },
        }
    }
}

fn strings(items: &[&str]) -> (r: Vec<String>)
    ensures
        texts(r@) == items@.map_values(|s: &str| s@),
{
    let mut r: Vec<String> = Vec::new();
    let mut i: usize = 0;
    while i < items.len()
        invariant
            i <= items@.len(),
            r@.len() == i,
            texts(r@) == items@.subrange(0, i as int).map_values(|s: &str| s@),
        decreases items@.len() - i,
    {
        let ghost before = r@;
        let item = String::from_str(items[i]);
        r.push(item);
        proof {
            let want = items@.subrange(0, i + 1).map_values(|s: &str| s@);
            assert forall|k: int| 0 <= k < i + 1 implies texts(r@)[k] == want[k] by {
                if k < i {
                    assert(r@[k] == before[k]);
                    assert(texts(before)[k] == items@.subrange(0, i as int).map_values(
                        |s: &str| s@,
                    )[k]);
                }
            }
            assert(texts(r@) =~= want);
        }
        i = i + 1;
    }
    assert(items@.subrange(0, i as int) =~= items@);
    r
}

impl ComplianceSystem {
    /// The region this system was configured for.
    pub closed spec fn region(&self) -> Region {
        self.region
    }

    pub fn new(region: &str) -> (r: CommonsResult<ComplianceSystem>)
        ensures
            r matches Ok(c) && parsed_region(region@, c.region()),
    {
        Ok(ComplianceSystem { region: Region::from_str(region) })
    }

    /// Check jurisdiction-specific compliance of an action in a region.
    pub fn check_jurisdiction(&self, region: Region, action: Action) -> (r: CommonsResult<
        ComplianceResult,
    >)
        ensures
            r matches Ok(c) && c.region == region && c.compliant && c.action@ == action_text(action)
                && texts(c.requirements@) == jurisdiction_requirements(region, action)
                && texts(c.warnings@) == jurisdiction_warnings(region),
    {
        let mut requirements: Vec<String> = Vec::new();
        let mut warnings: Vec<String> = Vec::new();
        let compliant = true;
        match &region {
            Region::Berlin | Region::London => {
                requirements.push(String::from_str("GDPR data protection requirements"));
                requirements.push(String::from_str("Right to be forgotten implementation"));
                requirements.push(String::from_str("Data sovereignty (EU servers)"));
                if matches!(action, Action::DataCollection | Action::DataStorage) {
                    requirements.push(String::from_str("Explicit consent required"));
                    requirements.push(String::from_str("Privacy impact assessment"));
                }
            },
            Region::Mumbai => {
                requirements.push(String::from_str("IT Act 2000 compliance"));
                requirements.push(String::from_str("Data localization for sensitive data"));
                if matches!(action, Action::Payment) {
                    requirements.push(String::from_str("RBI payment guidelines"));
                }
            },
            Region::LA | Region::NYC | Region::Atlanta => {
                requirements.push(String::from_str("IRS tax reporting"));
                if matches!(action, Action::DataCollection) {
                    requirements.push(String::from_str("CCPA compliance (California)"));
                }
                if matches!(action, Action::EmploymentContract) {
                    requirements.push(String::from_str("Fair Labor Standards Act"));
                }
            },
            _ => {
                warnings.push(String::from_str("Using default compliance rules"));
            },
        }
        assert(texts(requirements@) =~= jurisdiction_requirements(region, action));
        assert(texts(warnings@) =~= jurisdiction_warnings(region));
        let action_name = action.debug_name();
        Ok(
            ComplianceResult {
                region,
                action: action_name,
                compliant,
                requirements,
                warnings,
            },
        )
    }

    /// Union integration requirements of a region.
    pub fn union_integrate(&self, region: Region) -> (r: CommonsResult<UnionRules>)
        ensures
            r matches Ok(u) && u.region == region && texts(u.unions@) == union_rules_of(region).0
                && u.mandatory == union_rules_of(region).1 && u.collective_bargaining
                == union_rules_of(region).2,
    {
        let (unions, mandatory, collective_bargaining) = match &region {
            Region::LA | Region::NYC => (strings(&["SAG-AFTRA", "DGA", "WGA", "IATSE"]), true, true),
            Region::Berlin | Region::London => (
                strings(&["Ver.di (Germany)", "BECTU (UK)"]),
                false,
                true,
            ),
            Region::Mumbai => (
                strings(&["FWICE", "Cine & TV Artistes' Association"]),
                false,
                true,
            ),
            _ => (Vec::new(), false, false),
        };
        assert(texts(unions@) =~= union_rules_of(region).0);
        Ok(UnionRules { region, unions, mandatory, collective_bargaining })
    }

    /// Wage scale of a region.
    pub fn get_wage_scale(&self, region: Region) -> (w: WageScale)
        ensures
            w.region == region,
            w.minimum_hourly == wage_scale_of(region).0,
            w.union_compatible == wage_scale_of(region).1,
            w.living_wage_certified == wage_scale_of(region).2,
    {
        let (minimum_hourly, union_compatible, living_wage_certified) = match &region {
            Region::LA | Region::NYC => (2000, true, true),
            Region::Berlin => (1500, true, true),
            Region::Mumbai => (30000, true, true),
            _ => (1500, false, false),
        };
        WageScale { region, minimum_hourly, union_compatible, living_wage_certified }
    }

    /// GDPR applies to the EU/UK regions.
    pub fn verify_gdpr(&self) -> (r: bool)
        ensures
            r == (self.region() is Berlin || self.region() is London),
    {
        matches!(self.region, Region::Berlin | Region::London)
    }

    /// Tax reporting requirements of a region.
    pub fn get_tax_requirements(&self, region: Region) -> (r: Vec<String>)
        ensures
            texts(r@) == tax_requirements_of(region),
    {
        let r = match &region {
            Region::LA | Region::NYC | Region::Atlanta => strings(
                &["IRS Form 1099 for contractors", "W-2 for employees", "Quarterly estimated taxes"],
            ),
            Region::Berlin => strings(
                &["German tax ID (Steuernummer)", "VAT registration", "Annual tax returns"],
            ),
            Region::Mumbai => strings(&["PAN card requirement", "GST registration", "TDS compliance"]),
            _ => strings(&["Consult local tax authority"]),
        };
        assert(texts(r@) =~= tax_requirements_of(region));
        r
    }
}

impl Default for ComplianceSystem {
    fn default() -> (r: ComplianceSystem)
        ensures
            r.region() == Region::LA,
    {
        ComplianceSystem { region: Region::LA }
    }
}

} // verus!
