//! Voices and sample rates that speech synthesis offers.

use vstd::prelude::*;

use crate::error::{ClientError, ErrorView};
use crate::text::{decimal, decimal_of, lower_spec, same, to_ascii_lowercase};

verus! {

/// A voice: the name that callers use and the name that the service is sent.
#[derive(Debug, Clone, Copy)]
pub struct VoiceEntry {
    pub short: &'static str,
    /// Sent as it is, with every prefix that the service wants.
    pub wire_voice: &'static str,
}

/// What a voice is called.
pub ghost struct VoiceView {
    pub short: Seq<char>,
    pub wire_voice: Seq<char>,
}

impl View for VoiceEntry {
    type V = VoiceView;

    open spec fn view(&self) -> VoiceView {
        VoiceView { short: self.short@, wire_voice: self.wire_voice@ }
    }
}

/// The voices, ordered by name.
pub open spec fn voice_table() -> Seq<VoiceView> {
    seq![
        VoiceView { short: "aiden"@, wire_voice: "aiden"@ },
        VoiceView { short: "alex"@, wire_voice: "fnlp/MOSS-TTSD-v0.5:alex"@ },
        VoiceView { short: "anna"@, wire_voice: "fnlp/MOSS-TTSD-v0.5:anna"@ },
        VoiceView { short: "bella"@, wire_voice: "fnlp/MOSS-TTSD-v0.5:bella"@ },
        VoiceView { short: "benjamin"@, wire_voice: "fnlp/MOSS-TTSD-v0.5:benjamin"@ },
        VoiceView { short: "charles"@, wire_voice: "fnlp/MOSS-TTSD-v0.5:charles"@ },
        VoiceView { short: "claire"@, wire_voice: "fnlp/MOSS-TTSD-v0.5:claire"@ },
        VoiceView { short: "david"@, wire_voice: "fnlp/MOSS-TTSD-v0.5:david"@ },
        VoiceView { short: "diana"@, wire_voice: "fnlp/MOSS-TTSD-v0.5:diana"@ },
        VoiceView { short: "dylan"@, wire_voice: "dylan"@ },
        VoiceView { short: "eric"@, wire_voice: "eric"@ },
        VoiceView { short: "ono_anna"@, wire_voice: "ono_anna"@ },
        VoiceView { short: "ryan"@, wire_voice: "ryan"@ },
        VoiceView { short: "serena"@, wire_voice: "serena"@ },
        VoiceView { short: "sohee"@, wire_voice: "sohee"@ },
        VoiceView { short: "uncle_fu"@, wire_voice: "uncle_fu"@ },
        VoiceView { short: "vivian"@, wire_voice: "vivian"@ },
    ]
}

pub open spec fn voice_views(v: Seq<VoiceEntry>) -> Seq<VoiceView> {
    Seq::new(v.len(), |i: int| v[i]@)
}

/// There is a voice of this name.
pub open spec fn known_voice(short: Seq<char>) -> bool {
    exists|i: int| 0 <= i < voice_table().len() && (#[trigger] voice_table()[i]).short == short
}

/// The voices, ordered by name.
pub fn supported_voices() -> (r: Vec<VoiceEntry>)
    ensures
        voice_views(r@) == voice_table(),
{
    let v: Vec<VoiceEntry> = vec![
        VoiceEntry { short: "aiden", wire_voice: "aiden" },
        VoiceEntry { short: "alex", wire_voice: "fnlp/MOSS-TTSD-v0.5:alex" },
        VoiceEntry { short: "anna", wire_voice: "fnlp/MOSS-TTSD-v0.5:anna" },
        VoiceEntry { short: "bella", wire_voice: "fnlp/MOSS-TTSD-v0.5:bella" },
        VoiceEntry { short: "benjamin", wire_voice: "fnlp/MOSS-TTSD-v0.5:benjamin" },
        VoiceEntry { short: "charles", wire_voice: "fnlp/MOSS-TTSD-v0.5:charles" },
        VoiceEntry { short: "claire", wire_voice: "fnlp/MOSS-TTSD-v0.5:claire" },
        VoiceEntry { short: "david", wire_voice: "fnlp/MOSS-TTSD-v0.5:david" },
        VoiceEntry { short: "diana", wire_voice: "fnlp/MOSS-TTSD-v0.5:diana" },
        VoiceEntry { short: "dylan", wire_voice: "dylan" },
        VoiceEntry { short: "eric", wire_voice: "eric" },
        VoiceEntry { short: "ono_anna", wire_voice: "ono_anna" },
        VoiceEntry { short: "ryan", wire_voice: "ryan" },
        VoiceEntry { short: "serena", wire_voice: "serena" },
        VoiceEntry { short: "sohee", wire_voice: "sohee" },
        VoiceEntry { short: "uncle_fu", wire_voice: "uncle_fu" },
        VoiceEntry { short: "vivian", wire_voice: "vivian" },
    ];
    assert(voice_views(v@) =~= voice_table());
    v
}

/// Whether there is a voice of this name. Case counts.
pub fn is_supported_voice(short_name: &str) -> (r: bool)
    ensures
        r == known_voice(short_name@),
{
    lookup_voice(short_name).is_some()
}

/// The voice of this name. Case counts.
pub fn lookup_voice(short_name: &str) -> (r: Option<VoiceEntry>)
    ensures
        r is Some <==> known_voice(short_name@),
        r is Some ==> voice_table().contains(r->0@) && r->0@.short == short_name@,
{
    let voices = supported_voices();
    for i in 0..voices.len()
        invariant
            voice_views(voices@) == voice_table(),
            forall|k: int| 0 <= k < i ==> (#[trigger] voice_table()[k]).short != short_name@,
    {
        let v = voices[i];
        assert(voice_views(voices@)[i as int] == v@);
        assert(voice_table()[i as int] == v@);
        if same(v.short, short_name) {
            assert(voice_table()[i as int].short == short_name@);
            return Some(v);
        }
    }
    None
}

/// The names of the voices, in order.
pub fn supported_voice_shorts() -> (r: Vec<&'static str>)
    ensures
        r@.len() == voice_table().len(),
        forall|i: int| 0 <= i < r@.len() ==> (#[trigger] r@[i])@ == voice_table()[i].short,
{
    let voices = supported_voices();
    let mut out: Vec<&'static str> = Vec::new();
    for i in 0..voices.len()
        invariant
            voice_views(voices@) == voice_table(),
            out@.len() == i,
            forall|k: int| 0 <= k < i ==> (#[trigger] out@[k])@ == voice_table()[k].short,
    {
        assert(voice_views(voices@)[i as int] == voices@[i as int]@);
        out.push(voices[i].short);
    }
    assert(voice_views(voices@).len() == voices@.len());
    out
}

/// `a` and `b` first differ at `k`, where `a` has ended or has the smaller character.
pub open spec fn before_at(a: Seq<char>, b: Seq<char>, k: int) -> bool {
    &&& 0 <= k <= a.len()
    &&& k < b.len()
    &&& forall|i: int| 0 <= i < k ==> a[i] == b[i]
    &&& k == a.len() || a[k] < b[k]
}

/// `a` comes before `b` in the order of characters.
pub open spec fn before(a: Seq<char>, b: Seq<char>) -> bool {
    exists|k: int| before_at(a, b, k)
}

/// The names of the voices are in order, so none occurs twice.
#[verifier::rlimit(60)]
pub proof fn law_voices_are_sorted()
    ensures
        forall|i: int|
            0 <= i < voice_table().len() - 1 ==> before(
                (#[trigger] voice_table()[i]).short,
                voice_table()[i + 1].short,
            ),
{
    let t = voice_table();
    reveal_strlit("aiden");
    reveal_strlit("alex");
    reveal_strlit("anna");
    reveal_strlit("bella");
    reveal_strlit("benjamin");
    reveal_strlit("charles");
    reveal_strlit("claire");
    reveal_strlit("david");
    reveal_strlit("diana");
    reveal_strlit("dylan");
    reveal_strlit("eric");
    reveal_strlit("ono_anna");
    reveal_strlit("ryan");
    reveal_strlit("serena");
    reveal_strlit("sohee");
    reveal_strlit("uncle_fu");
    reveal_strlit("vivian");
    assert(before_at("aiden"@, "alex"@, 1));
    assert(before_at("alex"@, "anna"@, 1));
    assert(before_at("anna"@, "bella"@, 0));
    assert(before_at("bella"@, "benjamin"@, 2));
    assert(before_at("benjamin"@, "charles"@, 0));
    assert(before_at("charles"@, "claire"@, 1));
    assert(before_at("claire"@, "david"@, 0));
    assert(before_at("david"@, "diana"@, 1));
    assert(before_at("diana"@, "dylan"@, 1));
    assert(before_at("dylan"@, "eric"@, 0));
    assert(before_at("eric"@, "ono_anna"@, 0));
    assert(before_at("ono_anna"@, "ryan"@, 0));
    assert(before_at("ryan"@, "serena"@, 0));
    assert(before_at("serena"@, "sohee"@, 1));
    assert(before_at("sohee"@, "uncle_fu"@, 0));
    assert(before_at("uncle_fu"@, "vivian"@, 0));
    assert forall|i: int| 0 <= i < t.len() - 1 implies before((#[trigger] t[i]).short, t[i + 1].short) by {
        assert(t.len() == 17);
        if i == 0 {
            assert(before(t[0].short, t[1].short));
        } else if i == 1 {
            assert(before(t[1].short, t[2].short));
        } else if i == 2 {
            assert(before(t[2].short, t[3].short));
        } else if i == 3 {
            assert(before(t[3].short, t[4].short));
        } else if i == 4 {
            assert(before(t[4].short, t[5].short));
        } else if i == 5 {
            assert(before(t[5].short, t[6].short));
        } else if i == 6 {
            assert(before(t[6].short, t[7].short));
        } else if i == 7 {
            assert(before(t[7].short, t[8].short));
        } else if i == 8 {
            assert(before(t[8].short, t[9].short));
        } else if i == 9 {
            assert(before(t[9].short, t[10].short));
        } else if i == 10 {
            assert(before(t[10].short, t[11].short));
        } else if i == 11 {
            assert(before(t[11].short, t[12].short));
        } else if i == 12 {
            assert(before(t[12].short, t[13].short));
        } else if i == 13 {
            assert(before(t[13].short, t[14].short));
        } else if i == 14 {
            assert(before(t[14].short, t[15].short));
        } else {
            assert(before(t[15].short, t[16].short));
        }
    }
}

// ---- sample rates ----

/// The sample rates in Hz that a format supports; none for an unknown format.
pub open spec fn rates_spec(format: Seq<char>) -> Seq<u32> {
    let f = lower_spec(format);
    if f == "opus"@ {
        seq![48000u32]
    } else if f == "wav"@ || f == "pcm"@ {
        seq![8000u32, 16000, 24000, 32000, 44100]
    } else if f == "mp3"@ {
        seq![32000u32, 44100]
    } else {
        Seq::empty()
    }
}

/// The sample rate in Hz that a format has by default.
pub open spec fn default_rate_spec(format: Seq<char>) -> Option<u32> {
    let f = lower_spec(format);
    if f == "opus"@ {
        Some(48000)
    } else if f == "wav"@ || f == "pcm"@ || f == "mp3"@ {
        Some(44100)
    } else {
        None
    }
}

/// The sample rates that a format supports, whatever its case; none for an unknown format.
pub fn supported_sample_rates(format: &str) -> (r: &'static [u32])
    ensures
        r@ == rates_spec(format@),
{
    let f = to_ascii_lowercase(format);
    if same(f.as_str(), "opus") {
        let r: &'static [u32] = &[48000u32];
        assert(r@ =~= seq![48000u32]);
        r
    } else if same(f.as_str(), "wav") || same(f.as_str(), "pcm") {
        let r: &'static [u32] = &[8000u32, 16000u32, 24000u32, 32000u32, 44100u32];
        assert(r@ =~= seq![8000u32, 16000, 24000, 32000, 44100]);
        r
    } else if same(f.as_str(), "mp3") {
        let r: &'static [u32] = &[32000u32, 44100u32];
        assert(r@ =~= seq![32000u32, 44100]);
        r
    } else {
        let r: &'static [u32] = &[];
        assert(r@ =~= Seq::<u32>::empty());
        r
    }
}

/// The sample rate that a format has by default, whatever its case; none for an unknown format.
pub fn default_sample_rate(format: &str) -> (r: Option<u32>)
    ensures
        r == default_rate_spec(format@),
{
    let f = to_ascii_lowercase(format);
    if same(f.as_str(), "opus") {
        Some(48000)
    } else if same(f.as_str(), "wav") || same(f.as_str(), "pcm") || same(f.as_str(), "mp3") {
        Some(44100)
    } else {
        None
    }
}

/// A rate can be asked for: the format is not named or not known, or it supports the rate.
pub open spec fn rate_fits(rate: u32, format: Seq<char>) -> bool {
    format.len() == 0 || rates_spec(format).len() == 0 || rates_spec(format).contains(rate)
}

/// `rates` with a comma and a space between each two.
pub open spec fn join_rates(rates: Seq<u32>) -> Seq<char>
    decreases rates.len(),
{
    if rates.len() == 0 {
        Seq::empty()
    } else if rates.len() == 1 {
        decimal(rates[0] as nat)
    } else {
        join_rates(rates.drop_last()) + ", "@ + decimal(rates.last() as nat)
    }
}

/// Why a rate cannot be asked for.
pub open spec fn rate_message(rate: u32, format: Seq<char>) -> Seq<char> {
    "TTS sample_rate "@ + decimal(rate as nat) + " Hz 与 response_format '"@ + format
        + "' 不兼容；该格式支持的采样率为 ["@ + join_rates(rates_spec(format)) + "]"@ + (
    match default_rate_spec(format) {
        Some(d) => "，默认 "@ + decimal(d as nat) + " Hz"@,
        None => Seq::empty(),
    })
}

fn write_rates(rates: &[u32]) -> (r: String)
    ensures
        r@ == join_rates(rates@),
{
    let mut s: String = String::new();
    for i in 0..rates.len()
        invariant
            s@ == join_rates(rates@.take(i as int)),
    {
        let ghost before = s@;
        proof {
            assert(rates@.take(i + 1).drop_last() =~= rates@.take(i as int));
        }
        if i > 0 {
            s.append(", ");
        }
        s.append(decimal_of(rates[i] as u64).as_str());
        proof {
            if i == 0 {
                assert(before =~= Seq::<char>::empty());
                assert(s@ =~= decimal(rates@[0] as nat));
            } else {
                assert(s@ =~= before + ", "@ + decimal(rates@[i as int] as nat));
            }
        }
    }
    assert(rates@.take(rates@.len() as int) =~= rates@);
    s
}

/// Checks that a rate can be asked for; the message says why not.
pub fn check_sample_rate(rate: u32, format: &str) -> (r: Result<(), String>)
    ensures
        r is Ok <==> rate_fits(rate, format@),
        r is Err ==> r->Err_0@ == rate_message(rate, format@),
{
    if format.is_empty() {
        return Ok(());
    }
    let supported = supported_sample_rates(format);
    if supported.len() == 0 {
        return Ok(());
    }
    let mut i: usize = 0;
    while i < supported.len()
        invariant
            i <= supported@.len(),
            supported@ == rates_spec(format@),
            supported@.len() > 0,
            forall|k: int| 0 <= k < i ==> supported@[k] != rate,
        decreases supported@.len() - i,
    {
        if supported[i] == rate {
            assert(rates_spec(format@)[i as int] == rate);
            return Ok(());
        }
        i += 1;
    }
    let mut s: String = "TTS sample_rate ".to_string();
    s.append(decimal_of(rate as u64).as_str());
    s.append(" Hz 与 response_format '");
    s.append(format);
    s.append("' 不兼容；该格式支持的采样率为 [");
    s.append(write_rates(supported).as_str());
    s.append("]");
    let mut detail: String = String::new();
    if let Some(d) = default_sample_rate(format) {
        detail.append("，默认 ");
        detail.append(decimal_of(d as u64).as_str());
        detail.append(" Hz");
        assert(detail@ =~= "，默认 "@ + decimal(d as nat) + " Hz"@);
    }
    s.append(detail.as_str());
    Err(s)
}

/// Checks the rate that a client asks for against the format. A client that asks for none, a
/// format that is not named and one that is not known all pass.
pub fn validate_sample_rate_override(sample_rate_override: Option<u32>, response_format: &str) -> (r: Result<
    (),
    ClientError,
>)
    ensures
        r is Ok <==> (sample_rate_override is None || rate_fits(
            sample_rate_override->0,
            response_format@,
        )),
        r is Err ==> r->Err_0@ == ErrorView::Config(
            rate_message(sample_rate_override->0, response_format@),
        ),
{
    match sample_rate_override {
        None => Ok(()),
        Some(rate) => match check_sample_rate(rate, response_format) {
            Ok(()) => Ok(()),
            Err(m) => Err(ClientError::Config(m)),
        },
    }
}

/// The default rate of a format is the highest that it supports.
pub proof fn law_default_rate_is_supported(format: Seq<char>)
    ensures
        forall|i: int|
            0 <= i < rates_spec(format).len() ==> #[trigger] rates_spec(format)[i]
                <= default_rate_spec(format)->0,
        default_rate_spec(format) is Some <==> rates_spec(format).len() > 0,
        default_rate_spec(format) is Some ==> rates_spec(format).contains(
            default_rate_spec(format)->0,
        ),
{
    let r = rates_spec(format);
    if default_rate_spec(format) is Some {
        assert(r[r.len() - 1] == default_rate_spec(format)->0);
    }
}

/// A rate is refused exactly where its format is known and does not support it; how the format is
/// written does not matter.
pub proof fn law_rates_are_checked_by_format(rate: u32, format: Seq<char>)
    ensures
        rates_spec(format) == rates_spec(lower_spec(format)),
        default_rate_spec(format) == default_rate_spec(lower_spec(format)),
        !rate_fits(rate, format) ==> rates_spec(format).len() > 0 && !rates_spec(format).contains(rate),
        rates_spec(format).contains(rate) ==> rate_fits(rate, format),
        rates_spec(format).len() == 0 <==> default_rate_spec(format) is None,
{
    assert(lower_spec(lower_spec(format)) =~= lower_spec(format));
}

/// Each known format takes its own rates and no other, however the format is written.
pub proof fn law_formats_take_their_rates(rate: u32, format: Seq<char>)
    ensures
        lower_spec(format) == "opus"@ ==> (rate_fits(rate, format) <==> rate == 48000),
        lower_spec(format) == "mp3"@ ==> (rate_fits(rate, format) <==> rate == 32000 || rate == 44100),
        lower_spec(format) == "wav"@ || lower_spec(format) == "pcm"@ ==> (rate_fits(rate, format)
            <==> rate == 8000 || rate == 16000 || rate == 24000 || rate == 32000 || rate == 44100),
        lower_spec(format) != "opus"@ && lower_spec(format) != "mp3"@ && lower_spec(format)
            != "wav"@ && lower_spec(format) != "pcm"@ ==> rate_fits(rate, format),
{
    reveal_strlit("opus");
    reveal_strlit("mp3");
    reveal_strlit("wav");
    reveal_strlit("pcm");
    assert(lower_spec(format).len() == format.len());
    assert("opus"@.len() == 4 && "mp3"@.len() == 3 && "wav"@.len() == 3 && "pcm"@.len() == 3);
    assert("mp3"@[0] == 'm' && "wav"@[0] == 'w' && "pcm"@[0] == 'p');
    let r = rates_spec(format);
    if r.len() == 1 {
        assert(r.contains(rate) <==> rate == r[0]);
    } else if r.len() == 2 {
        assert(r.contains(rate) <==> rate == r[0] || rate == r[1]);
    } else if r.len() == 5 {
        assert(r.contains(rate) <==> rate == r[0] || rate == r[1] || rate == r[2] || rate == r[3]
            || rate == r[4]);
    }
}

/// Rates are listed one behind the other, with a comma between any two.
pub proof fn law_rates_are_listed_in_order(a: Seq<u32>, b: Seq<u32>)
    requires
        a.len() > 0,
        b.len() > 0,
    ensures
        join_rates(a + b) == join_rates(a) + ", "@ + join_rates(b),
        forall|r: u32| join_rates(#[trigger] seq![r]) == decimal(r as nat),
    decreases b.len(),
{
    assert((a + b).drop_last() =~= a + b.drop_last());
    assert((a + b).last() == b.last());
    if b.len() == 1 {
        assert(a + b.drop_last() =~= a);
    } else {
        law_rates_are_listed_in_order(a, b.drop_last());
        assert(join_rates(a) + ", "@ + join_rates(b.drop_last()) + ", "@ + decimal(
            b.last() as nat,
        ) =~= join_rates(a) + ", "@ + join_rates(b));
    }
}

/// What a refused rate is answered starts with the rate, names the format and the rates that it
/// takes, and ends with the one that is used where none is asked for.
pub proof fn law_refused_rate_is_explained(rate: u32, format: Seq<char>)
    requires
        !rate_fits(rate, format),
    ensures
        ({
            let start = "TTS sample_rate "@ + decimal(rate as nat) + " Hz"@;
            let list = "["@ + join_rates(rates_spec(format)) + "]，默认 "@;
            let m = rate_message(rate, format);
            &&& start.is_prefix_of(m)
            &&& (decimal(default_rate_spec(format)->0 as nat) + " Hz"@).is_suffix_of(m)
            &&& exists|before: Seq<char>, behind: Seq<char>|
                m == #[trigger] (before + format + behind) && list.is_prefix_of(
                    behind.skip("' 不兼容；该格式支持的采样率为 "@.len() as int),
                )
        }),
{
    let m = rate_message(rate, format);
    let d = decimal(default_rate_spec(format)->0 as nat);
    let start = "TTS sample_rate "@ + decimal(rate as nat) + " Hz"@;
    reveal_strlit(" Hz 与 response_format '");
    reveal_strlit(" Hz");
    reveal_strlit("' 不兼容；该格式支持的采样率为 [");
    reveal_strlit("' 不兼容；该格式支持的采样率为 ");
    reveal_strlit("[");
    reveal_strlit("]");
    reveal_strlit("，默认 ");
    reveal_strlit("]，默认 ");
    assert(m.take(start.len() as int) =~= start);
    assert(m.skip(m.len() - (d + " Hz"@).len()) =~= d + " Hz"@);
    let before = "TTS sample_rate "@ + decimal(rate as nat) + " Hz 与 response_format '"@;
    let behind = "' 不兼容；该格式支持的采样率为 ["@ + join_rates(rates_spec(format)) + "]"@ + (
    "，默认 "@ + d + " Hz"@);
    assert(m =~= before + format + behind);
    let list = "["@ + join_rates(rates_spec(format)) + "]，默认 "@;
    let rest = behind.skip("' 不兼容；该格式支持的采样率为 "@.len() as int);
    assert(rest.take(list.len() as int) =~= list);
}

} // verus!
