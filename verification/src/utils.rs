//! Shared identifiers, regions, currencies and money formatting.

use vstd::prelude::*;
use vstd::utf8::is_ascii_chars;

verus! {

/// Identifiers are 128-bit values (the bits of a UUID).
pub type MemberId = u128;

pub type ProjectId = u128;

pub type HubId = u128;

pub type LicenseId = u128;

pub type TransactionHash = String;

/// Seconds since the Unix epoch.
pub type Timestamp = i64;

/// Supported global regions.
#[derive(Debug, Clone, PartialEq, Eq, Hash)]
pub enum Region {
    LA,
    NYC,
    Atlanta,
    Mumbai,
    Berlin,
    Lagos,
    London,
    Tokyo,
    Sydney,
    Custom(String),
}

/// Supported currencies for global operations.
#[derive(Debug, Clone, Copy, PartialEq, Eq, Hash, Structural)]
pub enum Currency {
    USD,
    EUR,
    GBP,
    INR,
    JPY,
    XRP,
    USDC,
    EURS,
}

/// Revenue stream types.
#[derive(Debug, Clone, PartialEq, Eq)]
pub enum StreamType {
    Rental,
    EquipmentFees,
    Streaming,
    BoxOffice,
    Licensing,
    Grants,
    Other(String),
}

/// Errors of the community systems (membership, governance, production,
/// payments, treasury).
#[derive(Debug, Clone, PartialEq, Eq)]
pub enum CommonsError {
    /// No member has this id.
    MemberNotFound(u128),
    /// AI generation without verified consent.
    ConsentRequired,
    /// A license would end outside the representable time range.
    DurationOutOfRange,
    /// Nothing to average over.
    NoData,
}

/// Common result type for the community systems.
pub type CommonsResult<T> = Result<T, CommonsError>;

/// What `str::to_uppercase` makes of a string that holds a character
/// beyond ASCII (full Unicode case mapping, which is not restated here).
pub uninterp spec fn unicode_uppercase(s: Seq<char>) -> Seq<char>;

/// The upper case of an ASCII character: `a`..`z` become `A`..`Z`, every
/// other character stays.
pub open spec fn ascii_upper(c: char) -> char {
    if 'a' <= c <= 'z' {
        ((c as int) - 32) as char
    } else {
        c
    }
}

/// What `str::to_uppercase` makes of a string: on ASCII text the Unicode
/// upper-case mapping is the ASCII one, character by character.
pub open spec fn uppercase(s: Seq<char>) -> Seq<char> {
    if is_ascii_chars(s) {
        s.map_values(|c: char| ascii_upper(c))
    } else {
        unicode_uppercase(s)
    }
}

/// `str::to_uppercase`: the result is `uppercase` of the characters. On
/// ASCII text that is the ASCII mapping (Unicode maps `a`..`z` to `A`..`Z`
/// and leaves other ASCII characters alone); beyond ASCII it is named by
/// `unicode_uppercase`, and nothing more about Unicode case mapping is
/// claimed.
#[verifier::external_body]
fn to_uppercase(s: &str) -> (r: String)
    ensures
        is_ascii_chars(s@) ==> r@ == s@.map_values(|c: char| ascii_upper(c)),
        !is_ascii_chars(s@) ==> r@ == unicode_uppercase(s@),
{
    s.to_uppercase()
}

/// The region that an upper-cased name selects, or `None` for a custom region.
pub open spec fn known_region(up: Seq<char>) -> Option<Region> {
    if up == "LA"@ {
        Some(Region::LA)
    } else if up == "NYC"@ {
        Some(Region::NYC)
    } else if up == "ATLANTA"@ {
        Some(Region::Atlanta)
    } else if up == "MUMBAI"@ {
        Some(Region::Mumbai)
    } else if up == "BERLIN"@ {
        Some(Region::Berlin)
    } else if up == "LAGOS"@ {
        Some(Region::Lagos)
    } else if up == "LONDON"@ {
        Some(Region::London)
    } else if up == "TOKYO"@ {
        Some(Region::Tokyo)
    } else if up == "SYDNEY"@ {
        Some(Region::Sydney)
    } else {
        None
    }
}

/// `r` is the region parsed from `name`: a known region when the upper-cased
/// name is one of the known codes, otherwise `Custom` holding the name as given.
pub open spec fn parsed_region(name: Seq<char>, r: Region) -> bool {
    match known_region(uppercase(name)) {
        Some(k) => r == k,
        None => r is Custom && r->Custom_0@ == name,
    }
}

impl Region {
    /// Parse a region name case-insensitively; unknown names become `Custom`.
    pub fn from_str(s: &str) -> (r: Region)
        ensures
            parsed_region(s@, r),
    {
        let up = to_uppercase(s);
        if up == String::from_str("LA") {
            Region::LA
        } else if up == String::from_str("NYC") {
            Region::NYC
        } else if up == String::from_str("ATLANTA") {
            Region::Atlanta
        } else if up == String::from_str("MUMBAI") {
            Region::Mumbai
        } else if up == String::from_str("BERLIN") {
            Region::Berlin
        } else if up == String::from_str("LAGOS") {
            Region::Lagos
        } else if up == String::from_str("LONDON") {
            Region::London
        } else if up == String::from_str("TOKYO") {
            Region::Tokyo
        } else if up == String::from_str("SYDNEY") {
            Region::Sydney
        } else {
            Region::Custom(String::from_str(s))
        }
    }
}

/// The region-code literals, for proofs about parsing.
proof fn reveal_region_codes()
    ensures
        "LA"@ == seq!['L', 'A'],
        "NYC"@ == seq!['N', 'Y', 'C'],
        "ATLANTA"@ == seq!['A', 'T', 'L', 'A', 'N', 'T', 'A'],
        "MUMBAI"@ == seq!['M', 'U', 'M', 'B', 'A', 'I'],
        "BERLIN"@ == seq!['B', 'E', 'R', 'L', 'I', 'N'],
        "LAGOS"@ == seq!['L', 'A', 'G', 'O', 'S'],
        "LONDON"@ == seq!['L', 'O', 'N', 'D', 'O', 'N'],
        "TOKYO"@ == seq!['T', 'O', 'K', 'Y', 'O'],
        "SYDNEY"@ == seq!['S', 'Y', 'D', 'N', 'E', 'Y'],
{
    reveal_strlit("LA");
    reveal_strlit("NYC");
    reveal_strlit("ATLANTA");
    reveal_strlit("MUMBAI");
    reveal_strlit("BERLIN");
    reveal_strlit("LAGOS");
    reveal_strlit("LONDON");
    reveal_strlit("TOKYO");
    reveal_strlit("SYDNEY");
}

/// Printing a region and parsing the text back gives the region again: for
/// every named region whose printed name is its code (all but Los Angeles
/// and New York City, which print their full names), and for every custom
/// region whose name does not spell a code.
pub proof fn lemma_region_text_round_trip(r: Region)
    requires
        !(r is LA),
        !(r is NYC),
        r matches Region::Custom(x) ==> known_region(uppercase(x@)) is None,
    ensures
        parsed_region(r.display_text(), r),
{
    reveal_region_codes();
    match r {
        Region::Atlanta => {
            reveal_strlit("Atlanta");
            assert(uppercase("Atlanta"@) =~= "ATLANTA"@);
        },
        Region::Mumbai => {
            reveal_strlit("Mumbai");
            assert(uppercase("Mumbai"@) =~= "MUMBAI"@);
        },
        Region::Berlin => {
            reveal_strlit("Berlin");
            assert(uppercase("Berlin"@) =~= "BERLIN"@);
        },
        Region::Lagos => {
            reveal_strlit("Lagos");
            assert(uppercase("Lagos"@) =~= "LAGOS"@);
        },
        Region::London => {
            reveal_strlit("London");
            assert(uppercase("London"@) =~= "LONDON"@);
        },
        Region::Tokyo => {
            reveal_strlit("Tokyo");
            assert(uppercase("Tokyo"@) =~= "TOKYO"@);
        },
        Region::Sydney => {
            reveal_strlit("Sydney");
            assert(uppercase("Sydney"@) =~= "SYDNEY"@);
        },
        _ => {},
    }
}


impl Region {
    /// Human-readable region name (what the region prints as).
    pub open spec fn display_text(&self) -> Seq<char> {
        match self {
            Region::LA => "Los Angeles"@,
            Region::NYC => "New York City"@,
            Region::Atlanta => "Atlanta"@,
            Region::Mumbai => "Mumbai"@,
            Region::Berlin => "Berlin"@,
            Region::Lagos => "Lagos"@,
            Region::London => "London"@,
            Region::Tokyo => "Tokyo"@,
            Region::Sydney => "Sydney"@,
            Region::Custom(s) => s@,
        }
    }

    /// The human-readable name of the region.
    pub fn to_display_string(&self) -> (r: String)
        ensures
            r@ == self.display_text(),
    {
        match self {
            Region::LA => String::from_str("Los Angeles"),
            Region::NYC => String::from_str("New York City"),
            Region::Atlanta => String::from_str("Atlanta"),
            Region::Mumbai => String::from_str("Mumbai"),
            Region::Berlin => String::from_str("Berlin"),
            Region::Lagos => String::from_str("Lagos"),
            Region::London => String::from_str("London"),
            Region::Tokyo => String::from_str("Tokyo"),
            Region::Sydney => String::from_str("Sydney"),
            Region::Custom(s) => s.clone(),
        }
    }
}

impl StreamType {
    /// Human-readable stream name.
    pub open spec fn display_text(&self) -> Seq<char> {
        match self {
            StreamType::Rental => "Rental"@,
            StreamType::EquipmentFees => "Equipment Fees"@,
            StreamType::Streaming => "Streaming"@,
            StreamType::BoxOffice => "Box Office"@,
            StreamType::Licensing => "Licensing"@,
            StreamType::Grants => "Grants"@,
            StreamType::Other(s) => s@,
        }
    }

    /// The human-readable name of the stream.
    pub fn to_display_string(&self) -> (r: String)
        ensures
            r@ == self.display_text(),
    {
        match self {
            StreamType::Rental => String::from_str("Rental"),
            StreamType::EquipmentFees => String::from_str("Equipment Fees"),
            StreamType::Streaming => String::from_str("Streaming"),
            StreamType::BoxOffice => String::from_str("Box Office"),
            StreamType::Licensing => String::from_str("Licensing"),
            StreamType::Grants => String::from_str("Grants"),
            StreamType::Other(s) => s.clone(),
        }
    }
}

/// A fresh random identifier (a version-4 UUID's 128 bits).
#[verifier::external_body]
pub fn generate_id() -> u128 {
    uuid::Uuid::new_v4().as_u128()
}

/// What `{:?}` prints for a string: the string quoted, with escapes.
pub uninterp spec fn debug_text(s: Seq<char>) -> Seq<char>;

/// `format!("{:?}", s)` for a `str`: the result is named by `debug_text`, a
/// function of the characters alone; the escaping rules are not restated.
#[verifier::external_body]
pub(crate) fn debug_string(s: &str) -> (r: String)
    ensures
        r@ == debug_text(s@),
{
    format!("{:?}", s)
}

/// The lower-case hexadecimal digit for `d` in 0..16.
pub open spec fn hex_digit(d: nat) -> char {
    if d < 10 {
        (48 + d) as char
    } else {
        (87 + d) as char
    }
}

/// The `n` lowest hexadecimal digits of `v`, most significant first.
pub open spec fn hex_digits(v: nat, n: nat) -> Seq<char>
    decreases n,
{
    if n == 0 {
        Seq::empty()
    } else {
        hex_digits(v / 16, (n - 1) as nat).push(hex_digit(v % 16))
    }
}

/// The hyphenated lower-case text of the UUID with these 128 bits: its 32
/// hexadecimal digits, most significant first, grouped 8-4-4-4-12.
pub open spec fn uuid_text(id: u128) -> Seq<char> {
    let h = hex_digits(id as nat, 32);
    h.subrange(0, 8) + "-"@ + h.subrange(8, 12) + "-"@ + h.subrange(12, 16) + "-"@ + h.subrange(
        16,
        20,
    ) + "-"@ + h.subrange(20, 32)
}

/// `uuid::Uuid::from_u128(id).to_string()`: `from_u128` takes the bits in
/// big-endian byte order and `Display` writes the hyphenated lower-case form,
/// which is `uuid_text(id)`.
#[verifier::external_body]
pub(crate) fn uuid_string(id: u128) -> (r: String)
    ensures
        r@ == uuid_text(id),
{
    uuid::Uuid::from_u128(id).to_string()
}

/// `chrono::Utc::now().timestamp()`: the current time in whole seconds since
/// the Unix epoch. It depends on the clock, so nothing is claimed of it.
#[verifier::external_body]
pub(crate) fn current_timestamp() -> Timestamp {
    chrono::Utc::now().timestamp()
}

impl Region {
    /// A copy of the region.
    pub fn duplicate(&self) -> (r: Region)
        ensures
            r == *self,
    {
        match self {
            Region::LA => Region::LA,
            Region::NYC => Region::NYC,
            Region::Atlanta => Region::Atlanta,
            Region::Mumbai => Region::Mumbai,
            Region::Berlin => Region::Berlin,
            Region::Lagos => Region::Lagos,
            Region::London => Region::London,
            Region::Tokyo => Region::Tokyo,
            Region::Sydney => Region::Sydney,
            Region::Custom(s) => Region::Custom(s.clone()),
        }
    }
}

/// The ASCII digit for a value below ten.
pub open spec fn digit_char(d: nat) -> char {
    (d + 48) as char
}

/// Decimal digits of `n`, most significant first, without leading zeros.
pub open spec fn decimal(n: nat) -> Seq<char>
    decreases n,
{
    if n < 10 {
        seq![digit_char(n)]
    } else {
        decimal(n / 10).push(digit_char(n % 10))
    }
}

/// Decimal digits of `n`, left-padded with zeros to at least `width` characters.
pub open spec fn zero_padded(n: nat, width: nat) -> Seq<char> {
    let d = decimal(n);
    if d.len() >= width {
        d
    } else {
        Seq::new((width - d.len()) as nat, |i: int| '0') + d
    }
}

/// The one-character text of the decimal digit `d`.
fn digit_text(d: u128) -> (t: &'static str)
    requires
        d < 10,
    ensures
        t@ == seq![digit_char(d as nat)],
{
    if d == 0 {
        proof { reveal_strlit("0"); }
        "0"
    } else if d == 1 {
        proof { reveal_strlit("1"); }
        "1"
    } else if d == 2 {
        proof { reveal_strlit("2"); }
        "2"
    } else if d == 3 {
        proof { reveal_strlit("3"); }
        "3"
    } else if d == 4 {
        proof { reveal_strlit("4"); }
        "4"
    } else if d == 5 {
        proof { reveal_strlit("5"); }
        "5"
    } else if d == 6 {
        proof { reveal_strlit("6"); }
        "6"
    } else if d == 7 {
        proof { reveal_strlit("7"); }
        "7"
    } else if d == 8 {
        proof { reveal_strlit("8"); }
        "8"
    } else {
        proof { reveal_strlit("9"); }
        "9"
    }
}

/// Append the decimal digits of `n` to `s`.
fn append_decimal(s: &mut String, n: u128)
    ensures
        final(s)@ == old(s)@ + decimal(n as nat),
    decreases n,
{
    if n >= 10 {
        append_decimal(s, n / 10);
    }
    let ghost mid = s@;
    s.append(digit_text(n % 10));
    proof {
        if n >= 10 {
            assert(s@ =~= old(s)@ + decimal(n as nat));
        } else {
            assert(s@ =~= old(s)@ + decimal(n as nat));
        }
    }
}

/// The decimal digits of `n`, padded on the left with zeros to at least
/// `width` characters.
fn padded_decimal(n: u128, width: usize) -> (r: String)
    ensures
        r@ == zero_padded(n as nat, width as nat),
{
    let mut digits = String::new();
    append_decimal(&mut digits, n);
    assert(digits@ =~= decimal(n as nat));
    let len = digits.as_str().unicode_len();
    let mut r = String::new();
    let mut i: usize = len;
    proof {
        reveal_strlit("0");
        assert(r@ =~= Seq::new(0nat, |k: int| '0'));
    }
    while i < width
        invariant
            len <= i,
            i <= width || len >= width,
            len == decimal(n as nat).len(),
            digits@ == decimal(n as nat),
            len >= width ==> i == len,
            r@ == Seq::new((i - len) as nat, |k: int| '0'),
        decreases width - i,
    {
        proof {
            reveal_strlit("0");
        }
        r.append("0");
        i = i + 1;
        assert(r@ =~= Seq::new((i - len) as nat, |k: int| '0'));
    }
    r.append(digits.as_str());
    proof {
        if len >= width {
            assert(r@ =~= decimal(n as nat));
        } else {
            assert(i == width);
            assert(r@ =~= Seq::new((width - len) as nat, |k: int| '0') + decimal(n as nat));
        }
    }
    r
}

/// Minor units per major unit: the Yen has none, XRP six places (drops),
/// everything else two places.
pub open spec fn minor_divisor(c: Currency) -> nat {
    if c == Currency::JPY {
        1
    } else if c == Currency::XRP {
        1_000_000
    } else {
        100
    }
}

/// The text that `format_currency` produces.
pub open spec fn currency_text(amount: u128, c: Currency) -> Seq<char> {
    let whole = amount as nat / minor_divisor(c);
    let frac = amount as nat % minor_divisor(c);
    match c {
        Currency::USD => "$"@ + decimal(whole) + "."@ + zero_padded(frac, 2),
        Currency::EUR => "€"@ + decimal(whole) + "."@ + zero_padded(frac, 2),
        Currency::GBP => "£"@ + decimal(whole) + "."@ + zero_padded(frac, 2),
        Currency::INR => "₹"@ + decimal(whole) + "."@ + zero_padded(frac, 2),
        Currency::JPY => "¥"@ + decimal(whole),
        Currency::XRP => decimal(whole) + "."@ + zero_padded(frac, 6) + " XRP"@,
        Currency::USDC => "$"@ + decimal(whole) + "."@ + zero_padded(frac, 2) + " USDC"@,
        Currency::EURS => "€"@ + decimal(whole) + "."@ + zero_padded(frac, 2) + " EURS"@,
    }
}

/// Format an amount of minor units with its currency's symbol and decimals.
pub fn format_currency(amount: u128, currency: &Currency) -> (r: String)
    ensures
        r@ == currency_text(amount, *currency),
{
    let divisor: u128 = match currency {
        Currency::JPY => 1,
        Currency::XRP => 1_000_000,
        _ => 100,
    };
    let whole = amount / divisor;
    let fraction = amount % divisor;
    let whole_text = padded_decimal(whole, 0);
    match currency {
        Currency::USD => {
            let mut s = String::from_str("$");
            s.append(whole_text.as_str());
            s.append(".");
            s.append(padded_decimal(fraction, 2).as_str());
            s
        },
        Currency::EUR => {
            let mut s = String::from_str("€");
            s.append(whole_text.as_str());
            s.append(".");
            s.append(padded_decimal(fraction, 2).as_str());
            s
        },
        Currency::GBP => {
            let mut s = String::from_str("£");
            s.append(whole_text.as_str());
            s.append(".");
            s.append(padded_decimal(fraction, 2).as_str());
            s
        },
        Currency::INR => {
            let mut s = String::from_str("₹");
            s.append(whole_text.as_str());
            s.append(".");
            s.append(padded_decimal(fraction, 2).as_str());
            s
        },
        Currency::JPY => {
            let mut s = String::from_str("¥");
            s.append(whole_text.as_str());
            s
        },
        Currency::XRP => {
            let mut s = whole_text;
            s.append(".");
            s.append(padded_decimal(fraction, 6).as_str());
            s.append(" XRP");
            s
        },
        Currency::USDC => {
            let mut s = String::from_str("$");
            s.append(whole_text.as_str());
            s.append(".");
            s.append(padded_decimal(fraction, 2).as_str());
            s.append(" USDC");
            s
        },
        Currency::EURS => {
            let mut s = String::from_str("€");
            s.append(whole_text.as_str());
            s.append(".");
            s.append(padded_decimal(fraction, 2).as_str());
            s.append(" EURS");
            s
        },
    }
}

} // verus!
