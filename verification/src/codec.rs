//! Wire protocol of the remote synthesis service.
//!
//! Outbound: a configuration frame and a content frame, both text, built
//! char-for-char as the service expects them.  Inbound: binary frames
//! whose payload holds a header block ending in the literal `Path:audio`
//! line — the bytes after it are audio — and a text frame containing
//! `Path:turn.end`, which closes the response.

use vstd::prelude::*;
use vstd::string::StringExecFns;

verus! {

/// `n` occurs in `h` at position `i`.
pub open spec fn match_at(h: Seq<u8>, n: Seq<u8>, i: int) -> bool {
    &&& 0 <= i
    &&& i + n.len() <= h.len()
    &&& h.subrange(i, i + n.len() as int) == n
}

/// `n` occurs somewhere in `h`.
pub open spec fn contains_seq(h: Seq<u8>, n: Seq<u8>) -> bool {
    exists|i: int| match_at(h, n, i)
}

/// `i` is the first occurrence of `n` in `h`.
pub open spec fn is_first_match(h: Seq<u8>, n: Seq<u8>, i: int) -> bool {
    &&& match_at(h, n, i)
    &&& forall|j: int| 0 <= j < i ==> !match_at(h, n, j)
}

/// The position of the first occurrence of `n` in `h`; meaningful only
/// when `contains_seq(h, n)`.
pub open spec fn first_match(h: Seq<u8>, n: Seq<u8>) -> int {
    choose|i: int| is_first_match(h, n, i)
}

/// At most one position is the first occurrence.
pub proof fn lemma_first_match_unique(h: Seq<u8>, n: Seq<u8>, i: int, j: int)
    requires
        is_first_match(h, n, i),
        is_first_match(h, n, j),
    ensures
        i == j,
{
}

/// Position of the first occurrence of `needle` in `hay`, or `None` when
/// `needle` does not occur; an empty needle occurs at position zero.
pub fn find_first(hay: &Vec<u8>, needle: &Vec<u8>) -> (r: Option<usize>)
    ensures
        r matches Some(i) ==> is_first_match(hay@, needle@, i as int) && first_match(hay@, needle@) == i as int,
        r is None ==> !contains_seq(hay@, needle@),
{
    if needle.len() > hay.len() {
        proof {
            assert forall|j: int| !match_at(hay@, needle@, j) by {}
        }
        return None;
    }
    if needle.len() == 0 {
        proof {
            assert(hay@.subrange(0, 0) =~= needle@);
            assert(is_first_match(hay@, needle@, 0));
            lemma_first_match_unique(hay@, needle@, 0, first_match(hay@, needle@));
        }
        return Some(0);
    }
    let end: usize = hay.len() - needle.len();
    let mut i: usize = 0;
    while i <= end
        invariant
            1 <= needle@.len() <= hay@.len(),
            hay@.len() <= usize::MAX,
            end == hay@.len() - needle@.len(),
            forall|j: int| 0 <= j < i ==> !match_at(hay@, needle@, j),
            i <= end + 1,
        decreases end + 1 - i,
    {
        let mut j: usize = 0;
        let mut ok = true;
        while ok && j < needle.len()
            invariant
                0 <= j <= needle@.len(),
                i + needle@.len() <= hay@.len() <= usize::MAX,
                ok ==> forall|k: int| 0 <= k < j ==> hay@[i + k] == needle@[k],
                !ok ==> !match_at(hay@, needle@, i as int),
            decreases needle@.len() - j + (if ok { 1int } else { 0int }),
        {
            if hay[i + j] != needle[j] {
                proof {
                    assert(hay@.subrange(i as int, i + needle@.len() as int) != needle@) by {
                        assert(hay@.subrange(i as int, i + needle@.len() as int)[j as int] == hay@[i + j]);
                    }
                }
                ok = false;
            } else {
                j = j + 1;
            }
        }
        if ok {
            proof {
                assert(hay@.subrange(i as int, i + needle@.len() as int) =~= needle@);
                assert(is_first_match(hay@, needle@, i as int));
                lemma_first_match_unique(
                    hay@,
                    needle@,
                    i as int,
                    first_match(hay@, needle@),
                );
            }
            return Some(i);
        }
        i = i + 1;
    }
    proof {
        assert forall|j: int| !match_at(hay@, needle@, j) by {
            if j >= i {
                assert(j + needle@.len() > hay@.len());
            }
        }
    }
    None
}

/// Header terminator marking an audio payload: the bytes of
/// `Path:audio` followed by a carriage return and a line feed.
pub open spec fn audio_marker() -> Seq<u8> {
    seq![80u8, 97u8, 116u8, 104u8, 58u8, 97u8, 117u8, 100u8, 105u8, 111u8, 13u8, 10u8]
}

/// Turn-end pattern: the bytes of `Path:turn.end`.
pub open spec fn turn_end_marker() -> Seq<u8> {
    seq![80u8, 97u8, 116u8, 104u8, 58u8, 116u8, 117u8, 114u8, 110u8, 46u8, 101u8, 110u8, 100u8]
}

/// The audio marker as bytes.
pub fn audio_marker_bytes() -> (r: Vec<u8>)
    ensures
        r@ == audio_marker(),
{
    let r: Vec<u8> = vec![80u8, 97u8, 116u8, 104u8, 58u8, 97u8, 117u8, 100u8, 105u8, 111u8, 13u8, 10u8];
    proof {
        assert(r@ =~= audio_marker());
    }
    r
}

/// The turn-end pattern as bytes.
pub fn turn_end_marker_bytes() -> (r: Vec<u8>)
    ensures
        r@ == turn_end_marker(),
{
    let r: Vec<u8> = vec![80u8, 97u8, 116u8, 104u8, 58u8, 116u8, 117u8, 114u8, 110u8, 46u8, 101u8, 110u8, 100u8];
    proof {
        assert(r@ =~= turn_end_marker());
    }
    r
}

/// The audio bytes a binary frame payload contributes: what follows the
/// first audio marker, or nothing when the marker is absent.
pub open spec fn audio_payload(p: Seq<u8>) -> Seq<u8> {
    if contains_seq(p, audio_marker()) {
        p.subrange(first_match(p, audio_marker()) + audio_marker().len() as int, p.len() as int)
    } else {
        Seq::empty()
    }
}

/// One inbound frame of the duplex channel, already split by kind.
pub enum Frame {
    /// A binary frame's payload.
    Binary(Vec<u8>),
    /// A text frame's payload, as bytes.
    Text(Vec<u8>),
}

/// Audio accumulated after one more frame: a binary frame adds what
/// follows its audio marker; nothing changes once the turn has ended.
pub open spec fn step_audio(audio: Seq<u8>, done: bool, f: Frame) -> Seq<u8> {
    if done {
        audio
    } else {
        match f {
            Frame::Binary(p) => audio + audio_payload(p@),
            Frame::Text(_) => audio,
        }
    }
}

/// Whether the response is complete after one more frame: a text frame
/// containing the turn-end pattern ends it, and it stays ended.
pub open spec fn step_done(done: bool, f: Frame) -> bool {
    done || match f {
        Frame::Binary(_) => false,
        Frame::Text(p) => contains_seq(p@, turn_end_marker()),
    }
}

/// Decoder for one streamed response: accumulates the audio payload of
/// binary frames until the turn-end marker is observed.
pub struct CodecState {
    audio: Vec<u8>,
    done: bool,
}

impl CodecState {
    /// The audio accumulated so far.
    pub closed spec fn audio_spec(self) -> Seq<u8> {
        self.audio@
    }

    /// Whether the turn-end marker has been observed.
    pub closed spec fn done_spec(self) -> bool {
        self.done
    }

    pub fn new() -> (c: CodecState)
        ensures
            c.audio_spec() == Seq::<u8>::empty(),
            !c.done_spec(),
    {
        CodecState { audio: Vec::new(), done: false }
    }

    pub fn is_done(&self) -> (b: bool)
        ensures
            b == self.done_spec(),
    {
        self.done
    }

    /// Consume one inbound frame.
    pub fn step(&mut self, frame: Frame)
        ensures
            final(self).audio_spec() == step_audio(old(self).audio_spec(), old(self).done_spec(), frame),
            final(self).done_spec() == step_done(old(self).done_spec(), frame),
    {
        if self.done {
            return ;
        }
        match &frame {
            Frame::Binary(p) => {
                let marker = audio_marker_bytes();
                if let Some(i) = find_first(p, &marker) {
                    let plen: usize = p.len();
                    proof {
                        assert(match_at(p@, audio_marker(), i as int));
                        assert(i + audio_marker().len() <= plen);
                    }
                    let mut k: usize = i + marker.len();
                    proof {
                        assert(self.audio@ =~= old(self).audio_spec() + p@.subrange(
                            i + audio_marker().len() as int,
                            i + audio_marker().len() as int,
                        ));
                    }
                    while k < p.len()
                        invariant
                            i + audio_marker().len() <= k <= p@.len(),
                            self.audio@ == old(self).audio_spec() + p@.subrange(
                                i + audio_marker().len() as int,
                                k as int,
                            ),
                            self.done == old(self).done_spec(),
                        decreases p@.len() - k,
                    {
                        self.audio.push(p[k]);
                        proof {
                            assert(self.audio@ =~= old(self).audio_spec() + p@.subrange(
                                i + audio_marker().len() as int,
                                k + 1,
                            ));
                        }
                        k = k + 1;
                    }
                    proof {
                        assert(p@.subrange(i + audio_marker().len() as int, p@.len() as int)
                            =~= audio_payload(p@));
                    }
                } else {
                    proof {
                        assert(self.audio@ =~= old(self).audio_spec() + audio_payload(p@));
                    }
                }
            },
            Frame::Text(p) => {
                let marker = turn_end_marker_bytes();
                if find_first(p, &marker).is_some() {
                    self.done = true;
                }
            },
        }
    }

    /// The accumulated audio, surrendering the decoder.
    pub fn into_audio(self) -> (r: Vec<u8>)
        ensures
            r@ == self.audio_spec(),
    {
        self.audio
    }
}

/// The character for the decimal digit `d`.
pub open spec fn dec_digit(d: nat) -> char {
    if d == 0 {
        '0'
    } else if d == 1 {
        '1'
    } else if d == 2 {
        '2'
    } else if d == 3 {
        '3'
    } else if d == 4 {
        '4'
    } else if d == 5 {
        '5'
    } else if d == 6 {
        '6'
    } else if d == 7 {
        '7'
    } else if d == 8 {
        '8'
    } else {
        '9'
    }
}

/// The decimal digits of `n`, most significant first, no leading zeros
/// (a single `'0'` for zero).
pub open spec fn dec_str(n: nat) -> Seq<char>
    decreases n,
{
    if n < 10 {
        seq![dec_digit(n)]
    } else {
        dec_str(n / 10).push(dec_digit(n % 10))
    }
}

/// Relies on std's `Display` for `u128`, which writes the decimal digits
/// of the value.
#[verifier::external_body]
fn fmt_u128(n: u128) -> (r: String)
    ensures
        r@ == dec_str(n as nat),
{
    format!("{}", n)
}

/// Relies on `uuid::Uuid::new_v4` and its hyphenated `Display` form: a
/// fresh random connection identifier, 36 ASCII characters, uppercased.
#[verifier::external_body]
fn gen_uuid() -> (r: String)
    ensures
        r@.len() == 36,
{
    uuid::Uuid::new_v4().to_string().to_uppercase()
}

/// Relies on `std::time::SystemTime::now`: the clock reading as
/// milliseconds since the Unix epoch; a reading before the epoch yields 0.
#[verifier::external_body]
pub fn gen_millis() -> u128 {
    match std::time::SystemTime::now().duration_since(std::time::UNIX_EPOCH) {
        Ok(d) => d.as_millis(),
        Err(_) => 0,
    }
}

/// One synthesis request: the text to speak, the voice to speak it in,
/// and the clock reading at which the request entered.
pub struct TTSMessage {
    pub content: String,
    pub voice: String,
    pub start_ms: u128,
}

/// Endpoint URL of the remote synthesis service.
pub open spec fn spec_endpoint() -> Seq<char> {
    "wss://speech.platform.bing.com/consumer/speech/synthesize/readaloud/edge/v1"@
}

/// Audio-format configuration carried by the configuration frame.
pub open spec fn spec_speech_config() -> Seq<char> {
    "{\"context\":{\"synthesis\":{\"audio\":{\"metadataoptions\":{\"sentenceBoundaryEnabled\":\"false\",\"wordBoundaryEnabled\":\"false\"},\"outputFormat\":\"audio-24khz-48kbitrate-mono-mp3\"}}}}"@
}

pub open spec fn spec_token_query() -> Seq<char> {
    "?TrustedClientToken=6A5AA1D4EAFF4E9FB37E23D68491D6F4"@
}

pub open spec fn spec_conn_id_param() -> Seq<char> {
    "&X-ConnectionId="@
}

pub open spec fn spec_ssml_head() -> Seq<char> {
    "\n            <speak version=\"1.0\" xmlns=\"https://www.w3.org/2001/10/synthesis\" xml:lang=\"en-US\">\n                <voice name=\""@
}

pub open spec fn spec_ssml_mid() -> Seq<char> {
    "\">\n                "@
}

pub open spec fn spec_ssml_tail() -> Seq<char> {
    "\n                </voice>\n            </speak>\n        "@
}

pub open spec fn spec_config_head() -> Seq<char> {
    "X-Timestamp: "@
}

pub open spec fn spec_config_mid() -> Seq<char> {
    "\r\nContent-Type: application/json; charset=utf-8\r\nPath: speech.config\r\n\r\n"@
}

pub open spec fn spec_content_head() -> Seq<char> {
    "X-RequestId:"@
}

pub open spec fn spec_content_mid() -> Seq<char> {
    "\r\nContent-Type:application/ssml+xml\r\nX-Timestamp:"@
}

pub open spec fn spec_content_tail() -> Seq<char> {
    "\r\nPath:ssml\r\n\r\n"@
}

/// Builder of the outbound frames of one session: the fixed endpoint and
/// audio configuration, and the per-session connection identifier.
pub struct TTS {
    endpoint: &'static str,
    speech: &'static str,
    uuid: String,
}

impl TTS {
    /// The endpoint URL.
    pub closed spec fn endpoint_chars(self) -> Seq<char> {
        self.endpoint@
    }

    /// The audio-format configuration.
    pub closed spec fn speech_chars(self) -> Seq<char> {
        self.speech@
    }

    /// The per-session connection identifier.
    pub closed spec fn uuid_chars(self) -> Seq<char> {
        self.uuid@
    }

    /// A builder for one new session, under a freshly generated
    /// connection identifier.
    pub fn default() -> (t: TTS)
        ensures
            t.endpoint_chars() == spec_endpoint(),
            t.speech_chars() == spec_speech_config(),
            t.uuid_chars().len() == 36,
    {
        TTS {
            endpoint: "wss://speech.platform.bing.com/consumer/speech/synthesize/readaloud/edge/v1",
            speech: "{\"context\":{\"synthesis\":{\"audio\":{\"metadataoptions\":{\"sentenceBoundaryEnabled\":\"false\",\"wordBoundaryEnabled\":\"false\"},\"outputFormat\":\"audio-24khz-48kbitrate-mono-mp3\"}}}}",
            uuid: gen_uuid(),
        }
    }

    /// The URL the duplex channel is opened against: the endpoint with the
    /// fixed trusted-client token and this session's connection identifier.
    pub fn connect_url(&self) -> (r: String)
        ensures
            r@ == self.endpoint_chars() + spec_token_query() + spec_conn_id_param() + self.uuid_chars(),
    {
        let mut url = String::from_str(self.endpoint);
        url.append("?TrustedClientToken=6A5AA1D4EAFF4E9FB37E23D68491D6F4");
        url.append("&X-ConnectionId=");
        url.append(self.uuid.as_str());
        url
    }

    /// The SSML document wrapping `text` in a `<speak>`/`<voice>` envelope.
    pub fn get_ssml(&self, voice: &str, text: String) -> (r: String)
        ensures
            r@ == spec_ssml_head() + voice@ + spec_ssml_mid() + text@ + spec_ssml_tail(),
    {
        let mut s = String::from_str(
            "\n            <speak version=\"1.0\" xmlns=\"https://www.w3.org/2001/10/synthesis\" xml:lang=\"en-US\">\n                <voice name=\"",
        );
        s.append(voice);
        s.append("\">\n                ");
        s.append(text.as_str());
        s.append("\n                </voice>\n            </speak>\n        ");
        s
    }

    /// The configuration frame, first of the two outbound text frames.
    pub fn config_frame(&self, millis: u128) -> (r: String)
        ensures
            r@ == spec_config_head() + dec_str(millis as nat) + spec_config_mid() + self.speech_chars(),
    {
        let mut f = String::from_str("X-Timestamp: ");
        let ts = fmt_u128(millis);
        f.append(ts.as_str());
        f.append("\r\nContent-Type: application/json; charset=utf-8\r\nPath: speech.config\r\n\r\n");
        f.append(self.speech);
        f
    }

    /// The content frame, second outbound text frame, carrying `ssml`.
    pub fn content_frame(&self, millis: u128, ssml: &str) -> (r: String)
        ensures
            r@ == spec_content_head() + self.uuid_chars() + spec_content_mid() + dec_str(millis as nat)
                + spec_content_tail() + ssml@,
    {
        let mut f = String::from_str("X-RequestId:");
        f.append(self.uuid.as_str());
        f.append("\r\nContent-Type:application/ssml+xml\r\nX-Timestamp:");
        let ts = fmt_u128(millis);
        f.append(ts.as_str());
        f.append("\r\nPath:ssml\r\n\r\n");
        f.append(ssml);
        f
    }

    /// Both outbound frames for one request, in sending order.
    pub fn request_frames(&self, msg: &TTSMessage, millis: u128) -> (r: (String, String))
        ensures
            r.0@ == spec_config_head() + dec_str(millis as nat) + spec_config_mid() + self.speech_chars(),
            r.1@ == spec_content_head() + self.uuid_chars() + spec_content_mid() + dec_str(millis as nat)
                + spec_content_tail() + spec_ssml_head() + msg.voice@ + spec_ssml_mid() + msg.content@
                + spec_ssml_tail(),
    {
        let ssml = self.get_ssml(msg.voice.as_str(), msg.content.clone());
        let config = self.config_frame(millis);
        let content = self.content_frame(millis, ssml.as_str());
        (config, content)
    }
}

} // verus!
