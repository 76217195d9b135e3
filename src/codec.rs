use vstd::bytes::*;
use vstd::prelude::*;
use vstd::slice::*;

verus! {

/// One creator of the minted items.
#[derive(Clone, Copy, Debug)]
pub struct Creator {
    pub address: [u8; 32],
    pub verified: bool,
    pub share: u8,
}

/// Settings under which items are revealed off the account: no
/// configuration lines are stored.
#[derive(Clone, Debug)]
pub struct HiddenSettings {
    pub name: Vec<u8>,
    pub uri: Vec<u8>,
    pub hash: [u8; 32],
}

/// Mint configuration of a candy machine.
#[derive(Clone, Debug)]
pub struct CandyMachineData {
    /// Identifier whose bits carry the feature flags.
    pub uuid: Vec<u8>,
    pub symbol: Vec<u8>,
    pub creators: Vec<Creator>,
    pub hidden_settings: Option<HiddenSettings>,
    pub items_available: u64,
}

/// The header record stored at the start of a candy machine account.
#[derive(Clone, Debug)]
pub struct CandyMachine {
    pub authority: [u8; 32],
    pub wallet: [u8; 32],
    pub token_mint: Option<[u8; 32]>,
    pub items_redeemed: u64,
    pub data: CandyMachineData,
}

pub struct CreatorModel {
    pub address: Seq<u8>,
    pub verified: bool,
    pub share: u8,
}

pub struct HiddenSettingsModel {
    pub name: Seq<u8>,
    pub uri: Seq<u8>,
    pub hash: Seq<u8>,
}

pub struct ConfigModel {
    pub uuid: Seq<u8>,
    pub symbol: Seq<u8>,
    pub creators: Seq<CreatorModel>,
    pub hidden_settings: Option<HiddenSettingsModel>,
    pub items_available: u64,
}

pub struct RecordModel {
    pub authority: Seq<u8>,
    pub wallet: Seq<u8>,
    pub token_mint: Option<Seq<u8>>,
    pub items_redeemed: u64,
    pub data: ConfigModel,
}

impl View for Creator {
    type V = CreatorModel;

    open spec fn view(&self) -> CreatorModel {
        CreatorModel { address: self.address@, verified: self.verified, share: self.share }
    }
}

impl View for HiddenSettings {
    type V = HiddenSettingsModel;

    open spec fn view(&self) -> HiddenSettingsModel {
        HiddenSettingsModel { name: self.name@, uri: self.uri@, hash: self.hash@ }
    }
}

pub open spec fn creators_view(cs: Seq<Creator>) -> Seq<CreatorModel> {
    cs.map_values(|c: Creator| c@)
}

pub open spec fn hidden_view(h: Option<HiddenSettings>) -> Option<HiddenSettingsModel> {
    match h {
        Some(h) => Some(h@),
        None => None,
    }
}

pub open spec fn key_view(k: Option<[u8; 32]>) -> Option<Seq<u8>> {
    match k {
        Some(k) => Some(k@),
        None => None,
    }
}

impl View for CandyMachineData {
    type V = ConfigModel;

    open spec fn view(&self) -> ConfigModel {
        ConfigModel {
            uuid: self.uuid@,
            symbol: self.symbol@,
            creators: creators_view(self.creators@),
            hidden_settings: hidden_view(self.hidden_settings),
            items_available: self.items_available,
        }
    }
}

impl View for CandyMachine {
    type V = RecordModel;

    open spec fn view(&self) -> RecordModel {
        RecordModel {
            authority: self.authority@,
            wallet: self.wallet@,
            token_mint: key_view(self.token_mint),
            items_redeemed: self.items_redeemed,
            data: self.data@,
        }
    }
}

// ---------------------------------------------------------------------------
// The byte format: little-endian integers, u32-length-prefixed byte strings,
// a one-byte tag before optional values, a u32 count before the creators.

pub open spec fn fits_u32(n: nat) -> bool {
    n <= u32::MAX
}

pub open spec fn bool_byte(b: bool) -> u8 {
    if b {
        1
    } else {
        0
    }
}

pub open spec fn bytes_field(s: Seq<u8>) -> Seq<u8> {
    spec_u32_to_le_bytes(s.len() as u32) + s
}

pub open spec fn key_option_bytes(k: Option<Seq<u8>>) -> Seq<u8> {
    match k {
        Some(k) => seq![1u8] + k,
        None => seq![0u8],
    }
}

pub open spec fn creator_bytes(c: CreatorModel) -> Seq<u8> {
    c.address + seq![bool_byte(c.verified), c.share]
}

pub open spec fn creators_body(cs: Seq<CreatorModel>) -> Seq<u8>
    decreases cs.len(),
{
    if cs.len() == 0 {
        seq![]
    } else {
        creators_body(cs.drop_last()) + creator_bytes(cs.last())
    }
}

pub open spec fn creators_bytes(cs: Seq<CreatorModel>) -> Seq<u8> {
    spec_u32_to_le_bytes(cs.len() as u32) + creators_body(cs)
}

pub open spec fn hidden_bytes(h: Option<HiddenSettingsModel>) -> Seq<u8> {
    match h {
        Some(h) => seq![1u8] + (bytes_field(h.name) + (bytes_field(h.uri) + h.hash)),
        None => seq![0u8],
    }
}

/// Encoding of the configuration.
pub open spec fn config_bytes(c: ConfigModel) -> Seq<u8> {
    bytes_field(c.uuid) + (bytes_field(c.symbol) + (creators_bytes(c.creators) + (hidden_bytes(
        c.hidden_settings,
    ) + spec_u64_to_le_bytes(c.items_available))))
}

/// Encoding of the header record, without the account tag.
pub open spec fn record_bytes(r: RecordModel) -> Seq<u8> {
    r.authority + (r.wallet + (key_option_bytes(r.token_mint) + (spec_u64_to_le_bytes(
        r.items_redeemed,
    ) + config_bytes(r.data))))
}

pub open spec fn creator_wf(c: CreatorModel) -> bool {
    c.address.len() == 32
}

pub open spec fn config_wf(c: ConfigModel) -> bool {
    &&& fits_u32(c.uuid.len())
    &&& fits_u32(c.symbol.len())
    &&& fits_u32(c.creators.len())
    &&& forall|i: int| 0 <= i < c.creators.len() ==> #[trigger] creator_wf(c.creators[i])
    &&& match c.hidden_settings {
        Some(h) => fits_u32(h.name.len()) && fits_u32(h.uri.len()) && h.hash.len() == 32,
        None => true,
    }
}

/// A record that the format can hold: every length fits its u32 prefix.
pub open spec fn record_wf(r: RecordModel) -> bool {
    &&& r.authority.len() == 32
    &&& r.wallet.len() == 32
    &&& match r.token_mint {
        Some(k) => k.len() == 32,
        None => true,
    }
    &&& config_wf(r.data)
}

// ---------------------------------------------------------------------------
// Decoding: each parser returns the value and the bytes after it.

pub open spec fn parse_fixed(s: Seq<u8>, n: nat) -> Option<(Seq<u8>, Seq<u8>)> {
    if s.len() >= n {
        Some((s.take(n as int), s.skip(n as int)))
    } else {
        None
    }
}

pub open spec fn parse_u32(s: Seq<u8>) -> Option<(u32, Seq<u8>)> {
    if s.len() >= 4 {
        Some((spec_u32_from_le_bytes(s.take(4)), s.skip(4)))
    } else {
        None
    }
}

pub open spec fn parse_u64(s: Seq<u8>) -> Option<(u64, Seq<u8>)> {
    if s.len() >= 8 {
        Some((spec_u64_from_le_bytes(s.take(8)), s.skip(8)))
    } else {
        None
    }
}

pub open spec fn parse_bytes_field(s: Seq<u8>) -> Option<(Seq<u8>, Seq<u8>)> {
    match parse_u32(s) {
        Some((n, r)) => parse_fixed(r, n as nat),
        None => None,
    }
}

pub open spec fn parse_key_option(s: Seq<u8>) -> Option<(Option<Seq<u8>>, Seq<u8>)> {
    if s.len() >= 1 && s[0] == 0 {
        Some((None, s.skip(1)))
    } else if s.len() >= 33 && s[0] == 1 {
        Some((Some(s.subrange(1, 33)), s.skip(33)))
    } else {
        None
    }
}

pub open spec fn parse_creator(s: Seq<u8>) -> Option<(CreatorModel, Seq<u8>)> {
    if s.len() >= 34 && s[32] <= 1 {
        Some((CreatorModel { address: s.take(32), verified: s[32] == 1, share: s[33] }, s.skip(34)))
    } else {
        None
    }
}

pub open spec fn parse_creators_body(s: Seq<u8>, k: nat) -> Option<(Seq<CreatorModel>, Seq<u8>)>
    decreases k,
{
    if k == 0 {
        Some((seq![], s))
    } else {
        match parse_creators_body(s, (k - 1) as nat) {
            Some((cs, r)) => match parse_creator(r) {
                Some((c, r2)) => Some((cs.push(c), r2)),
                None => None,
            },
            None => None,
        }
    }
}

pub open spec fn parse_creators(s: Seq<u8>) -> Option<(Seq<CreatorModel>, Seq<u8>)> {
    match parse_u32(s) {
        Some((k, r)) => parse_creators_body(r, k as nat),
        None => None,
    }
}

pub open spec fn parse_hidden(s: Seq<u8>) -> Option<(Option<HiddenSettingsModel>, Seq<u8>)> {
    if s.len() >= 1 && s[0] == 0 {
        Some((None, s.skip(1)))
    } else if s.len() >= 1 && s[0] == 1 {
        match parse_bytes_field(s.skip(1)) {
            Some((name, r1)) => match parse_bytes_field(r1) {
                Some((uri, r2)) => match parse_fixed(r2, 32) {
                    Some((hash, r3)) => Some(
                        (Some(HiddenSettingsModel { name, uri, hash }), r3),
                    ),
                    None => None,
                },
                None => None,
            },
            None => None,
        }
    } else {
        None
    }
}

pub open spec fn parse_config(s: Seq<u8>) -> Option<(ConfigModel, Seq<u8>)> {
    match parse_bytes_field(s) {
        Some((uuid, r1)) => match parse_bytes_field(r1) {
            Some((symbol, r2)) => match parse_creators(r2) {
                Some((creators, r3)) => match parse_hidden(r3) {
                    Some((hidden_settings, r4)) => match parse_u64(r4) {
                        Some((items_available, r5)) => Some(
                            (
                                ConfigModel {
                                    uuid,
                                    symbol,
                                    creators,
                                    hidden_settings,
                                    items_available,
                                },
                                r5,
                            ),
                        ),
                        None => None,
                    },
                    None => None,
                },
                None => None,
            },
            None => None,
        },
        None => None,
    }
}

/// Decoding of a header record that starts at the first byte of `s`.
pub open spec fn parse_record(s: Seq<u8>) -> Option<(RecordModel, Seq<u8>)> {
    match parse_fixed(s, 32) {
        Some((authority, r1)) => match parse_fixed(r1, 32) {
            Some((wallet, r2)) => match parse_key_option(r2) {
                Some((token_mint, r3)) => match parse_u64(r3) {
                    Some((items_redeemed, r4)) => match parse_config(r4) {
                        Some((data, r5)) => Some(
                            (RecordModel { authority, wallet, token_mint, items_redeemed, data }, r5),
                        ),
                        None => None,
                    },
                    None => None,
                },
                None => None,
            },
            None => None,
        },
        None => None,
    }
}

// ---------------------------------------------------------------------------
// Round trip.

proof fn lemma_fixed(a: Seq<u8>, rest: Seq<u8>)
    ensures
        parse_fixed(a + rest, a.len()) == Some((a, rest)),
{
    assert((a + rest).take(a.len() as int) =~= a);
    assert((a + rest).skip(a.len() as int) =~= rest);
}

proof fn lemma_u32(x: u32, rest: Seq<u8>)
    ensures
        parse_u32(spec_u32_to_le_bytes(x) + rest) == Some((x, rest)),
{
    lemma_auto_spec_u32_to_from_le_bytes();
    lemma_fixed(spec_u32_to_le_bytes(x), rest);
}

proof fn lemma_u64(x: u64, rest: Seq<u8>)
    ensures
        parse_u64(spec_u64_to_le_bytes(x) + rest) == Some((x, rest)),
{
    lemma_auto_spec_u64_to_from_le_bytes();
    lemma_fixed(spec_u64_to_le_bytes(x), rest);
}

proof fn lemma_bytes_field(s: Seq<u8>, rest: Seq<u8>)
    requires
        fits_u32(s.len()),
    ensures
        parse_bytes_field(bytes_field(s) + rest) == Some((s, rest)),
{
    let h = spec_u32_to_le_bytes(s.len() as u32);
    assert(bytes_field(s) + rest =~= h + (s + rest));
    lemma_u32(s.len() as u32, s + rest);
    lemma_fixed(s, rest);
}

proof fn lemma_key_option(k: Option<Seq<u8>>, rest: Seq<u8>)
    requires
        k matches Some(v) ==> v.len() == 32,
    ensures
        parse_key_option(key_option_bytes(k) + rest) == Some((k, rest)),
{
    let s = key_option_bytes(k) + rest;
    match k {
        Some(v) => {
            assert(s.subrange(1, 33) =~= v);
            assert(s.skip(33) =~= rest);
        },
        None => {
            assert(s.skip(1) =~= rest);
        },
    }
}

proof fn lemma_creators_body(cs: Seq<CreatorModel>, rest: Seq<u8>)
    requires
        forall|i: int| 0 <= i < cs.len() ==> #[trigger] creator_wf(cs[i]),
    ensures
        parse_creators_body(creators_body(cs) + rest, cs.len()) == Some((cs, rest)),
    decreases cs.len(),
{
    if cs.len() > 0 {
        let init = cs.drop_last();
        let c = cs.last();
        assert(creator_wf(cs[cs.len() - 1]));
        assert forall|i: int| 0 <= i < init.len() implies #[trigger] creator_wf(init[i]) by {
            assert(creator_wf(cs[i]));
        }
        assert(creators_body(cs) + rest =~= creators_body(init) + (creator_bytes(c) + rest));
        lemma_creators_body(init, creator_bytes(c) + rest);
        let t = creator_bytes(c) + rest;
        assert(t.take(32) =~= c.address);
        assert(t.skip(34) =~= rest);
        assert(init.push(c) =~= cs);
    } else {
        assert(creators_body(cs) + rest =~= rest);
        assert(cs =~= seq![]);
    }
}

proof fn lemma_hidden(h: Option<HiddenSettingsModel>, rest: Seq<u8>)
    requires
        h matches Some(v) ==> fits_u32(v.name.len()) && fits_u32(v.uri.len()) && v.hash.len()
            == 32,
    ensures
        parse_hidden(hidden_bytes(h) + rest) == Some((h, rest)),
{
    let s = hidden_bytes(h) + rest;
    match h {
        Some(v) => {
            assert(s.skip(1) =~= bytes_field(v.name) + (bytes_field(v.uri) + (v.hash + rest)));
            lemma_bytes_field(v.name, bytes_field(v.uri) + (v.hash + rest));
            lemma_bytes_field(v.uri, v.hash + rest);
            lemma_fixed(v.hash, rest);
        },
        None => {
            assert(s.skip(1) =~= rest);
        },
    }
}

proof fn lemma_config(c: ConfigModel, rest: Seq<u8>)
    requires
        config_wf(c),
    ensures
        parse_config(config_bytes(c) + rest) == Some((c, rest)),
{
    let f1 = bytes_field(c.uuid);
    let f2 = bytes_field(c.symbol);
    let f3 = creators_bytes(c.creators);
    let f4 = hidden_bytes(c.hidden_settings);
    let f5 = spec_u64_to_le_bytes(c.items_available);
    assert(config_bytes(c) + rest =~= f1 + (f2 + (f3 + (f4 + (f5 + rest)))));
    lemma_bytes_field(c.uuid, f2 + (f3 + (f4 + (f5 + rest))));
    lemma_bytes_field(c.symbol, f3 + (f4 + (f5 + rest)));
    let h = spec_u32_to_le_bytes(c.creators.len() as u32);
    let b = creators_body(c.creators);
    assert(f3 + (f4 + (f5 + rest)) =~= h + (b + (f4 + (f5 + rest))));
    lemma_u32(c.creators.len() as u32, b + (f4 + (f5 + rest)));
    lemma_creators_body(c.creators, f4 + (f5 + rest));
    lemma_hidden(c.hidden_settings, f5 + rest);
    lemma_u64(c.items_available, rest);
}

/// Decoding an encoded header record gives back the same record, and the
/// bytes that followed it.
pub proof fn lemma_record_round_trip(r: RecordModel, rest: Seq<u8>)
    requires
        record_wf(r),
    ensures
        parse_record(record_bytes(r) + rest) == Some((r, rest)),
{
    let f3 = key_option_bytes(r.token_mint);
    let f4 = spec_u64_to_le_bytes(r.items_redeemed);
    let f5 = config_bytes(r.data);
    assert(record_bytes(r) + rest =~= r.authority + (r.wallet + (f3 + (f4 + (f5 + rest)))));
    lemma_fixed(r.authority, r.wallet + (f3 + (f4 + (f5 + rest))));
    lemma_fixed(r.wallet, f3 + (f4 + (f5 + rest)));
    lemma_key_option(r.token_mint, f4 + (f5 + rest));
    lemma_u64(r.items_redeemed, f5 + rest);
    lemma_config(r.data, rest);
}

// ---------------------------------------------------------------------------
// Executable encoder.

fn push_slice(out: &mut Vec<u8>, s: &[u8])
    ensures
        final(out)@ == old(out)@ + s@,
{
    let ghost start = out@;
    let mut i: usize = 0;
    while i < s.len()
        invariant
            i <= s@.len(),
            out@ == start + s@.take(i as int),
        decreases s@.len() - i,
    {
        out.push(s[i]);
        assert(start + s@.take(i + 1) =~= (start + s@.take(i as int)).push(s@[i as int]));
        i = i + 1;
    }
    assert(s@.take(s@.len() as int) =~= s@);
}

fn push_key(out: &mut Vec<u8>, k: &[u8; 32])
    ensures
        final(out)@ == old(out)@ + k@,
{
    let ghost start = out@;
    let mut i: usize = 0;
    while i < 32
        invariant
            i <= 32,
            k@.len() == 32,
            out@ == start + k@.take(i as int),
        decreases 32 - i,
    {
        out.push(k[i]);
        assert(start + k@.take(i + 1) =~= (start + k@.take(i as int)).push(k@[i as int]));
        i = i + 1;
    }
    assert(k@.take(32) =~= k@);
}

fn push_u32(out: &mut Vec<u8>, x: u32)
    ensures
        final(out)@ == old(out)@ + spec_u32_to_le_bytes(x),
{
    let b = u32_to_le_bytes(x);
    push_slice(out, b.as_slice());
}

fn push_u64(out: &mut Vec<u8>, x: u64)
    ensures
        final(out)@ == old(out)@ + spec_u64_to_le_bytes(x),
{
    let b = u64_to_le_bytes(x);
    push_slice(out, b.as_slice());
}

fn push_bytes_field(out: &mut Vec<u8>, s: &Vec<u8>)
    requires
        fits_u32(s@.len()),
    ensures
        final(out)@ == old(out)@ + bytes_field(s@),
{
    let ghost start = out@;
    push_u32(out, s.len() as u32);
    push_slice(out, s.as_slice());
    assert(out@ =~= start + bytes_field(s@));
}

fn push_creators(out: &mut Vec<u8>, cs: &Vec<Creator>)
    requires
        fits_u32(cs@.len()),
    ensures
        final(out)@ == old(out)@ + creators_bytes(creators_view(cs@)),
{
    let ghost start = out@;
    push_u32(out, cs.len() as u32);
    let ghost mid = out@;
    let mut i: usize = 0;
    while i < cs.len()
        invariant
            i <= cs@.len(),
            out@ == mid + creators_body(creators_view(cs@.take(i as int))),
        decreases cs@.len() - i,
    {
        let c = cs[i];
        let ghost before = out@;
        push_key(out, &c.address);
        out.push(if c.verified { 1u8 } else { 0u8 });
        out.push(c.share);
        let ghost next = creators_view(cs@.take(i + 1));
        assert(next.drop_last() =~= creators_view(cs@.take(i as int)));
        assert(next.last() == c@);
        assert(out@ =~= before + creator_bytes(c@));
        i = i + 1;
    }
    assert(cs@.take(cs@.len() as int) =~= cs@);
    assert(out@ =~= start + creators_bytes(creators_view(cs@)));
}

fn push_hidden(out: &mut Vec<u8>, h: &Option<HiddenSettings>)
    requires
        h matches Some(v) ==> fits_u32(v.name@.len()) && fits_u32(v.uri@.len()),
    ensures
        final(out)@ == old(out)@ + hidden_bytes(hidden_view(*h)),
{
    let ghost start = out@;
    match h {
        Some(v) => {
            out.push(1u8);
            push_bytes_field(out, &v.name);
            push_bytes_field(out, &v.uri);
            push_key(out, &v.hash);
        },
        None => {
            out.push(0u8);
        },
    }
    assert(out@ =~= start + hidden_bytes(hidden_view(*h)));
}

/// Whether every length of the record fits the format.
pub fn record_is_encodable(r: &CandyMachine) -> (ok: bool)
    ensures
        ok == record_wf(r@),
{
    let d = &r.data;
    let hidden_ok = match &d.hidden_settings {
        Some(h) => h.name.len() <= u32::MAX as usize && h.uri.len() <= u32::MAX as usize,
        None => true,
    };
    proof {
        assert forall|i: int| 0 <= i < r.data.creators@.len() implies #[trigger] creator_wf(
            creators_view(r.data.creators@)[i],
        ) by {}
    }
    d.uuid.len() <= u32::MAX as usize && d.symbol.len() <= u32::MAX as usize && d.creators.len()
        <= u32::MAX as usize && hidden_ok
}

/// Appends the encoding of the header record to `out`.
pub fn encode_record(r: &CandyMachine, out: &mut Vec<u8>)
    requires
        record_wf(r@),
    ensures
        final(out)@ == old(out)@ + record_bytes(r@),
{
    let ghost start = out@;
    push_key(out, &r.authority);
    push_key(out, &r.wallet);
    match &r.token_mint {
        Some(k) => {
            out.push(1u8);
            push_key(out, k);
        },
        None => {
            out.push(0u8);
        },
    }
    push_u64(out, r.items_redeemed);
    let ghost head = out@;
    let d = &r.data;
    push_bytes_field(out, &d.uuid);
    push_bytes_field(out, &d.symbol);
    push_creators(out, &d.creators);
    push_hidden(out, &d.hidden_settings);
    push_u64(out, d.items_available);
    assert(out@ =~= head + config_bytes(r.data@));
    assert(out@ =~= start + record_bytes(r@));
}

// ---------------------------------------------------------------------------
// Executable decoder: each reader starts at `pos` and returns the value and
// the position after it, exactly as the matching parser does on the bytes
// from `pos` on.

fn read_u32(b: &[u8], pos: usize) -> (r: Option<(u32, usize)>)
    requires
        pos <= b@.len(),
    ensures
        match r {
            Some((v, p)) => pos <= p <= b@.len() && parse_u32(b@.skip(pos as int)) == Some(
                (v, b@.skip(p as int)),
            ),
            None => parse_u32(b@.skip(pos as int)) is None,
        },
{
    if b.len() - pos < 4 {
        return None;
    }
    let s = slice_subrange(b, pos, pos + 4);
    let v = u32_from_le_bytes(s);
    assert(s@ =~= b@.skip(pos as int).take(4));
    assert(b@.skip(pos as int).skip(4) =~= b@.skip(pos + 4));
    Some((v, pos + 4))
}

fn read_u64(b: &[u8], pos: usize) -> (r: Option<(u64, usize)>)
    requires
        pos <= b@.len(),
    ensures
        match r {
            Some((v, p)) => pos <= p <= b@.len() && parse_u64(b@.skip(pos as int)) == Some(
                (v, b@.skip(p as int)),
            ),
            None => parse_u64(b@.skip(pos as int)) is None,
        },
{
    if b.len() - pos < 8 {
        return None;
    }
    let s = slice_subrange(b, pos, pos + 8);
    let v = u64_from_le_bytes(s);
    assert(s@ =~= b@.skip(pos as int).take(8));
    assert(b@.skip(pos as int).skip(8) =~= b@.skip(pos + 8));
    Some((v, pos + 8))
}

fn read_fixed(b: &[u8], pos: usize, n: usize) -> (r: Option<(Vec<u8>, usize)>)
    requires
        pos <= b@.len(),
    ensures
        match r {
            Some((v, p)) => pos <= p <= b@.len() && parse_fixed(b@.skip(pos as int), n as nat)
                == Some((v@, b@.skip(p as int))),
            None => parse_fixed(b@.skip(pos as int), n as nat) is None,
        },
{
    if b.len() - pos < n {
        return None;
    }
    let s = slice_subrange(b, pos, pos + n);
    let v = slice_to_vec(s);
    assert(s@ =~= b@.skip(pos as int).take(n as int));
    assert(b@.skip(pos as int).skip(n as int) =~= b@.skip(pos + n));
    Some((v, pos + n))
}

fn read_key(b: &[u8], pos: usize) -> (r: Option<([u8; 32], usize)>)
    requires
        pos <= b@.len(),
    ensures
        match r {
            Some((v, p)) => pos <= p <= b@.len() && parse_fixed(b@.skip(pos as int), 32) == Some(
                (v@, b@.skip(p as int)),
            ),
            None => parse_fixed(b@.skip(pos as int), 32) is None,
        },
{
    if b.len() - pos < 32 {
        return None;
    }
    let mut k = [0u8; 32];
    let mut i: usize = 0;
    while i < 32
        invariant
            i <= 32,
            pos + 32 <= b.len(),
            k@.len() == 32,
            forall|j: int| 0 <= j < i ==> k@[j] == b@[pos + j],
        decreases 32 - i,
    {
        k[i] = b[pos + i];
        i = i + 1;
    }
    assert(k@ =~= b@.skip(pos as int).take(32));
    assert(b@.skip(pos as int).skip(32) =~= b@.skip(pos + 32));
    Some((k, pos + 32))
}

fn read_bytes_field(b: &[u8], pos: usize) -> (r: Option<(Vec<u8>, usize)>)
    requires
        pos <= b@.len(),
    ensures
        match r {
            Some((v, p)) => pos <= p <= b@.len() && parse_bytes_field(b@.skip(pos as int)) == Some(
                (v@, b@.skip(p as int)),
            ),
            None => parse_bytes_field(b@.skip(pos as int)) is None,
        },
{
    match read_u32(b, pos) {
        Some((n, p)) => read_fixed(b, p, n as usize),
        None => None,
    }
}

fn read_key_option(b: &[u8], pos: usize) -> (r: Option<(Option<[u8; 32]>, usize)>)
    requires
        pos <= b@.len(),
    ensures
        match r {
            Some((v, p)) => pos <= p <= b@.len() && parse_key_option(b@.skip(pos as int)) == Some(
                (key_view(v), b@.skip(p as int)),
            ),
            None => parse_key_option(b@.skip(pos as int)) is None,
        },
{
    if pos >= b.len() {
        return None;
    }
    let tag = b[pos];
    assert(b@.skip(pos as int).skip(1) =~= b@.skip(pos + 1));
    if tag == 0 {
        Some((None, pos + 1))
    } else if tag == 1 {
        match read_key(b, pos + 1) {
            Some((k, p)) => {
                assert(b@.skip(pos as int).subrange(1, 33) =~= b@.skip(pos + 1).take(32));
                assert(b@.skip(pos as int).skip(33) =~= b@.skip(pos + 33));
                Some((Some(k), p))
            },
            None => None,
        }
    } else {
        None
    }
}

fn read_creator(b: &[u8], pos: usize) -> (r: Option<(Creator, usize)>)
    requires
        pos <= b@.len(),
    ensures
        match r {
            Some((v, p)) => pos <= p <= b@.len() && parse_creator(b@.skip(pos as int)) == Some(
                (v@, b@.skip(p as int)),
            ),
            None => parse_creator(b@.skip(pos as int)) is None,
        },
{
    if b.len() - pos < 34 || b[pos + 32] > 1 {
        return None;
    }
    match read_key(b, pos) {
        Some((address, _)) => {
            let verified = b[pos + 32] == 1;
            let share = b[pos + 33];
            assert(b@.skip(pos as int).skip(34) =~= b@.skip(pos + 34));
            Some((Creator { address, verified, share }, pos + 34))
        },
        None => None,
    }
}

proof fn lemma_creators_body_stays_failed(s: Seq<u8>, i: nat, k: nat)
    requires
        i <= k,
        parse_creators_body(s, i) is None,
    ensures
        parse_creators_body(s, k) is None,
    decreases k,
{
    if i < k {
        lemma_creators_body_stays_failed(s, i, (k - 1) as nat);
    }
}

fn read_creators(b: &[u8], pos: usize) -> (r: Option<(Vec<Creator>, usize)>)
    requires
        pos <= b@.len(),
    ensures
        match r {
            Some((v, p)) => pos <= p <= b@.len() && parse_creators(b@.skip(pos as int)) == Some(
                (creators_view(v@), b@.skip(p as int)),
            ),
            None => parse_creators(b@.skip(pos as int)) is None,
        },
{
    let (k, p0) = match read_u32(b, pos) {
        Some(x) => x,
        None => return None,
    };
    let mut v: Vec<Creator> = Vec::new();
    let mut p = p0;
    let mut i: u32 = 0;
    assert(creators_view(v@) =~= seq![]);
    while i < k
        invariant
            i <= k,
            p0 <= p <= b@.len(),
            parse_u32(b@.skip(pos as int)) == Some((k, b@.skip(p0 as int))),
            parse_creators_body(b@.skip(p0 as int), i as nat) == Some(
                (creators_view(v@), b@.skip(p as int)),
            ),
        decreases k - i,
    {
        match read_creator(b, p) {
            Some((c, p2)) => {
                let ghost prev = v@;
                v.push(c);
                assert(creators_view(v@) =~= creators_view(prev).push(c@));
                p = p2;
            },
            None => {
                proof {
                    lemma_creators_body_stays_failed(
                        b@.skip(p0 as int),
                        (i + 1) as nat,
                        k as nat,
                    );
                }
                return None;
            },
        }
        i = i + 1;
    }
    Some((v, p))
}

fn read_hidden(b: &[u8], pos: usize) -> (r: Option<(Option<HiddenSettings>, usize)>)
    requires
        pos <= b@.len(),
    ensures
        match r {
            Some((v, p)) => pos <= p <= b@.len() && parse_hidden(b@.skip(pos as int)) == Some(
                (hidden_view(v), b@.skip(p as int)),
            ),
            None => parse_hidden(b@.skip(pos as int)) is None,
        },
{
    if pos >= b.len() {
        return None;
    }
    let tag = b[pos];
    assert(b@.skip(pos as int).skip(1) =~= b@.skip(pos + 1));
    if tag == 0 {
        Some((None, pos + 1))
    } else if tag == 1 {
        let (name, p1) = match read_bytes_field(b, pos + 1) {
            Some(x) => x,
            None => return None,
        };
        let (uri, p2) = match read_bytes_field(b, p1) {
            Some(x) => x,
            None => return None,
        };
        let (hash, p3) = match read_key(b, p2) {
            Some(x) => x,
            None => return None,
        };
        Some((Some(HiddenSettings { name, uri, hash }), p3))
    } else {
        None
    }
}

fn read_config(b: &[u8], pos: usize) -> (r: Option<(CandyMachineData, usize)>)
    requires
        pos <= b@.len(),
    ensures
        match r {
            Some((v, p)) => pos <= p <= b@.len() && parse_config(b@.skip(pos as int)) == Some(
                (v@, b@.skip(p as int)),
            ),
            None => parse_config(b@.skip(pos as int)) is None,
        },
{
    let (uuid, p1) = match read_bytes_field(b, pos) {
        Some(x) => x,
        None => return None,
    };
    let (symbol, p2) = match read_bytes_field(b, p1) {
        Some(x) => x,
        None => return None,
    };
    let (creators, p3) = match read_creators(b, p2) {
        Some(x) => x,
        None => return None,
    };
    let (hidden_settings, p4) = match read_hidden(b, p3) {
        Some(x) => x,
        None => return None,
    };
    let (items_available, p5) = match read_u64(b, p4) {
        Some(x) => x,
        None => return None,
    };
    Some((CandyMachineData { uuid, symbol, creators, hidden_settings, items_available }, p5))
}

/// Decodes the header record that starts at `pos`; returns it with the
/// position of the first byte after it, or `None` where the bytes from
/// `pos` on hold no record.
pub fn decode_record(b: &[u8], pos: usize) -> (r: Option<(CandyMachine, usize)>)
    requires
        pos <= b@.len(),
    ensures
        match r {
            Some((v, p)) => pos <= p <= b@.len() && parse_record(b@.skip(pos as int)) == Some(
                (v@, b@.skip(p as int)),
            ),
            None => parse_record(b@.skip(pos as int)) is None,
        },
{
    let (authority, p1) = match read_key(b, pos) {
        Some(x) => x,
        None => return None,
    };
    let (wallet, p2) = match read_key(b, p1) {
        Some(x) => x,
        None => return None,
    };
    let (token_mint, p3) = match read_key_option(b, p2) {
        Some(x) => x,
        None => return None,
    };
    let (items_redeemed, p4) = match read_u64(b, p3) {
        Some(x) => x,
        None => return None,
    };
    let (data, p5) = match read_config(b, p4) {
        Some(x) => x,
        None => return None,
    };
    Some((CandyMachine { authority, wallet, token_mint, items_redeemed, data }, p5))
}

/// Whether two 32-byte keys are equal.
pub(crate) fn keys_equal(a: &[u8; 32], b: &[u8; 32]) -> (r: bool)
    ensures
        r == (a@ == b@),
{
    let mut i: usize = 0;
    while i < 32
        invariant
            i <= 32,
            a@.len() == 32,
            b@.len() == 32,
            forall|j: int| 0 <= j < i ==> a@[j] == b@[j],
        decreases 32 - i,
    {
        if a[i] != b[i] {
            return false;
        }
        i = i + 1;
    }
    assert(a@ =~= b@);
    true
}

} // verus!
