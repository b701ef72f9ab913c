//! The host system, as it is described to a model.
use vstd::prelude::*;
use vstd::utf8::valid_utf8;

use crate::bytes::{decode, utf8_text};
use crate::pieces::{
    first_position, join_all, joined, joined_words_are_found_again, lemma_first_position, lines,
    lines_of, position_from, separates, texts_without_separators_are_words, words, words_of,
    Separator,
};
use crate::quote::{json_quoted, json_text};
use crate::text::{
    byte_length, char_is_ascii_alphanumeric, char_is_control, chars_of, is_ascii_alphanumeric,
    is_control, is_whitespace, join2, lemma_trim_fixed, opt_text, string_of, text_bytes, text_eq,
    texts, trim, trimmed,
};

verus! {

/// More bytes than this are not read from an os-release file.
pub const MAX_OS_RELEASE_BYTES: u64 = 32768;

/// An identifier takes at most this many bytes.
pub const MAX_IDENTIFIER_BYTES: usize = 64;

/// The distribution of a Linux system.
#[derive(Clone, Debug, PartialEq, Eq)]
pub struct DistributionInfo {
    pub id: Option<String>,
    pub version_id: Option<String>,
    pub version_codename: Option<String>,
    pub id_like: Vec<String>,
}

/// A distribution, with its texts taken as characters.
#[verifier::ext_equal]
pub struct DistributionView {
    pub id: Option<Seq<char>>,
    pub version_id: Option<Seq<char>>,
    pub version_codename: Option<Seq<char>>,
    pub id_like: Seq<Seq<char>>,
}

impl View for DistributionInfo {
    type V = DistributionView;

    open spec fn view(&self) -> DistributionView {
        DistributionView {
            id: opt_text(self.id),
            version_id: opt_text(self.version_id),
            version_codename: opt_text(self.version_codename),
            id_like: texts(self.id_like@),
        }
    }
}

/// A distribution of which nothing is known.
pub open spec fn unknown_distribution() -> DistributionView {
    DistributionView { id: None, version_id: None, version_codename: None, id_like: seq![] }
}

/// The host system.
#[derive(Clone, Debug)]
pub struct SystemInfo {
    pub os: &'static str,
    pub architecture: &'static str,
    pub distribution: Option<DistributionInfo>,
}

// ---------------------------------------------------------------------------
// Values of an os-release file.

/// A value with its backslash escapes resolved. `None` where a control
/// character stands unescaped or nothing follows the last backslash.
pub open spec fn unescaped(s: Seq<char>) -> Option<Seq<char>>
    decreases s.len(),
{
    if s.len() == 0 {
        Some(seq![])
    } else if s[0] == '\\' {
        if s.len() == 1 {
            None
        } else {
            match unescaped(s.skip(2)) {
                Some(rest) => Some(seq![s[1]] + rest),
                None => None,
            }
        }
    } else if is_control(s[0]) {
        None
    } else {
        match unescaped(s.skip(1)) {
            Some(rest) => Some(seq![s[0]] + rest),
            None => None,
        }
    }
}

/// Whether a text stands between two of the given quotation marks.
pub open spec fn is_quoted(s: Seq<char>, mark: char) -> bool {
    s.len() >= 2 && s[0] == mark && s.last() == mark
}

/// A value without its quotation marks and escapes. `None` where the closing
/// mark is missing or the escapes are malformed.
pub open spec fn value_of(raw: Seq<char>) -> Option<Seq<char>> {
    if is_quoted(raw, '"') || is_quoted(raw, '\'') {
        unescaped(raw.subrange(1, raw.len() - 1))
    } else if raw.len() > 0 && (raw[0] == '"' || raw[0] == '\'') {
        None
    } else {
        unescaped(raw)
    }
}

/// The text in front of more text.
pub open spec fn prepended(front: Seq<char>, rest: Option<Seq<char>>) -> Option<Seq<char>> {
    match rest {
        Some(rest) => Some(front + rest),
        None => None,
    }
}

/// A value without its quotation marks and escapes.
pub fn parse_value(raw_value: &str) -> (r: Option<String>)
    ensures
        opt_text(r) == value_of(raw_value@),
{
    let chars = chars_of(raw_value);
    let n: usize = chars.len();
    let mut from: usize = 0;
    let mut to: usize = n;
    if n >= 2 && ((chars[0] == '"' && chars[n - 1] == '"') || (chars[0] == '\'' && chars[n - 1]
        == '\'')) {
        from = 1;
        to = n - 1;
    } else if n > 0 && (chars[0] == '"' || chars[0] == '\'') {
        return None;
    }
    let ghost value = raw_value@.subrange(from as int, to as int);
    proof {
        assert(raw_value@.subrange(0, n as int) =~= raw_value@);
        assert(value_of(raw_value@) == unescaped(value));
        assert(value.skip(0) =~= value);
    }
    let mut decoded = String::new();
    let mut i: usize = from;
    proof {
        match unescaped(value) {
            Some(text) => {
                assert(decoded@ + text =~= text);
            },
            None => {},
        }
    }
    while i < to
        invariant
            chars@ == raw_value@,
            from <= i <= to <= chars@.len(),
            value == raw_value@.subrange(from as int, to as int),
            value_of(raw_value@) == unescaped(value),
            unescaped(value) == prepended(decoded@, unescaped(value.skip(i - from))),
        decreases to - i,
    {
        let ghost rest = value.skip(i - from);
        let ghost before = decoded@;
        let c = chars[i];
        assert(rest[0] == c);
        if c == '\\' {
            if to - i == 1 {
                return None;
            }
            decoded.push(chars[i + 1]);
            proof {
                assert(rest[1] == chars@[i + 1]);
                assert(rest.skip(2) =~= value.skip(i + 2 - from));
                match unescaped(rest.skip(2)) {
                    Some(text) => {
                        assert(before + (seq![rest[1]] + text) =~= decoded@ + text);
                    },
                    None => {},
                }
            }
            i = i + 2;
        } else if char_is_control(c) {
            return None;
        } else {
            decoded.push(c);
            proof {
                assert(rest.skip(1) =~= value.skip(i + 1 - from));
                match unescaped(rest.skip(1)) {
                    Some(text) => {
                        assert(before + (seq![rest[0]] + text) =~= decoded@ + text);
                    },
                    None => {},
                }
            }
            i = i + 1;
        }
    }
    assert(value.skip(to - from) =~= seq![]);
    assert(decoded@ + seq![] =~= decoded@);
    Some(decoded)
}

// ---------------------------------------------------------------------------
// Identifiers.

/// Whether a character may stand in an identifier.
pub open spec fn in_identifier(c: char) -> bool {
    is_ascii_alphanumeric(c) || c == '.' || c == '_' || c == '-'
}

/// Whether a text is an identifier: not empty, at most `max_bytes` bytes, and
/// made of ASCII letters and digits, dots, underscores and hyphens.
pub open spec fn is_identifier(s: Seq<char>, max_bytes: nat) -> bool {
    &&& s.len() > 0
    &&& byte_length(s) <= max_bytes
    &&& forall|i: int| 0 <= i < s.len() ==> in_identifier(#[trigger] s[i])
}

/// Whether a text is an identifier of at most `max_bytes` bytes.
pub fn check_identifier(value: &str, max_bytes: usize) -> (r: bool)
    ensures
        r == is_identifier(value@, max_bytes as nat),
{
    if value.is_empty() || text_bytes(value) > max_bytes {
        return false;
    }
    let chars = chars_of(value);
    let mut i: usize = 0;
    while i < chars.len()
        invariant
            chars@ == value@,
            i <= chars@.len(),
            forall|k: int| 0 <= k < i ==> in_identifier(#[trigger] value@[k]),
        decreases chars@.len() - i,
    {
        let c = chars[i];
        if !(char_is_ascii_alphanumeric(c) || c == '.' || c == '_' || c == '-') {
            assert(!in_identifier(value@[i as int]));
            return false;
        }
        i = i + 1;
    }
    true
}

/// A text where it is an identifier.
pub open spec fn identifier(value: Seq<char>) -> Option<Seq<char>> {
    if is_identifier(value, MAX_IDENTIFIER_BYTES as nat) {
        Some(value)
    } else {
        None
    }
}

/// A text where it is an identifier.
pub fn valid_identifier(value: &str) -> (r: Option<String>)
    ensures
        opt_text(r) == identifier(value@),
{
    if check_identifier(value, MAX_IDENTIFIER_BYTES) {
        Some(value.to_owned())
    } else {
        None
    }
}

/// The texts of a list that are identifiers, in their order.
pub open spec fn identifiers(values: Seq<Seq<char>>) -> Seq<Seq<char>>
    decreases values.len(),
{
    if values.len() == 0 {
        seq![]
    } else {
        let front = identifiers(values.drop_last());
        match identifier(values.last()) {
            Some(value) => front.push(value),
            None => front,
        }
    }
}

/// The texts of a list that are identifiers, in their order.
fn valid_identifiers(values: &Vec<String>) -> (r: Vec<String>)
    ensures
        texts(r@) == identifiers(texts(values@)),
{
    let mut out: Vec<String> = Vec::new();
    let mut i: usize = 0;
    let ghost all = texts(values@);
    assert(texts(out@) =~= seq![]);
    assert(all.take(0) =~= seq![]);
    while i < values.len()
        invariant
            all == texts(values@),
            i <= values@.len(),
            texts(out@) == identifiers(all.take(i as int)),
        decreases values@.len() - i,
    {
        assert(all.take(i + 1).drop_last() =~= all.take(i as int));
        assert(all.take(i + 1).last() == values@[i as int]@);
        match valid_identifier(values[i].as_str()) {
            Some(value) => {
                let ghost before = out@;
                out.push(value);
                assert(texts(out@) =~= texts(before).push(value@));
            },
            None => {},
        }
        i = i + 1;
    }
    assert(all.take(all.len() as int) =~= all);
    out
}

// ---------------------------------------------------------------------------
// os-release files.

/// A distribution after one line of its os-release file.
pub open spec fn with_line(d: DistributionView, line: Seq<char>) -> DistributionView {
    let line = trim(line);
    let at = first_position(line, '=');
    if line.len() == 0 || line[0] == '#' || at >= line.len() {
        d
    } else {
        let key = line.take(at);
        match value_of(trim(line.skip(at + 1))) {
            None => d,
            Some(value) => if key == "ID"@ {
                DistributionView { id: identifier(value), ..d }
            } else if key == "VERSION_ID"@ {
                DistributionView { version_id: identifier(value), ..d }
            } else if key == "VERSION_CODENAME"@ {
                DistributionView { version_codename: identifier(value), ..d }
            } else if key == "ID_LIKE"@ {
                DistributionView { id_like: identifiers(words(value, Separator::AsciiWhitespace)), ..d }
            } else {
                d
            },
        }
    }
}

/// The distribution that the lines of an os-release file describe.
pub open spec fn with_lines(lines: Seq<Seq<char>>) -> DistributionView
    decreases lines.len(),
{
    if lines.len() == 0 {
        unknown_distribution()
    } else {
        with_line(with_lines(lines.drop_last()), lines.last())
    }
}

/// The distribution that an os-release file describes, if it tells anything.
pub open spec fn os_release(contents: Seq<char>) -> Option<DistributionView> {
    let d = with_lines(lines(contents));
    if d == unknown_distribution() {
        None
    } else {
        Some(d)
    }
}

/// An optional distribution with its texts taken as characters.
pub open spec fn distribution_view(d: Option<DistributionInfo>) -> Option<DistributionView> {
    match d {
        Some(d) => Some(d@),
        None => None,
    }
}

/// A distribution after one line of its os-release file.
fn apply_line(d: DistributionInfo, line: &str) -> (r: DistributionInfo)
    ensures
        r@ == with_line(d@, line@),
{
    let line = trimmed(line);
    let chars = chars_of(line.as_str());
    let n: usize = chars.len();
    assert(chars@.skip(0) =~= chars@);
    if n == 0 || chars[0] == '#' {
        return d;
    }
    let at = position_from(&chars, '=', 0);
    if at == n {
        return d;
    }
    let key = string_of(&chars, 0, at);
    let raw = string_of(&chars, at + 1, n);
    assert(key@ =~= line@.take(at as int));
    assert(raw@ =~= line@.skip(at + 1));
    let mut d = d;
    match parse_value(trimmed(raw.as_str()).as_str()) {
        None => {},
        Some(value) => {
            if text_eq(key.as_str(), "ID") {
                d.id = valid_identifier(value.as_str());
            } else if text_eq(key.as_str(), "VERSION_ID") {
                d.version_id = valid_identifier(value.as_str());
            } else if text_eq(key.as_str(), "VERSION_CODENAME") {
                d.version_codename = valid_identifier(value.as_str());
            } else if text_eq(key.as_str(), "ID_LIKE") {
                d.id_like = valid_identifiers(&words_of(value.as_str(), Separator::AsciiWhitespace));
            }
        },
    }
    d
}

/// The distribution that an os-release file describes, if it tells anything.
pub fn parse_os_release(contents: &str) -> (r: Option<DistributionInfo>)
    ensures
        distribution_view(r) == os_release(contents@),
{
    let all = lines_of(contents);
    let mut d = DistributionInfo {
        id: None,
        version_id: None,
        version_codename: None,
        id_like: Vec::new(),
    };
    let ghost given = texts(all@);
    let mut i: usize = 0;
    assert(given.take(0) =~= seq![]);
    assert(d@ =~= unknown_distribution());
    while i < all.len()
        invariant
            given == texts(all@),
            i <= all@.len(),
            d@ == with_lines(given.take(i as int)),
        decreases all@.len() - i,
    {
        assert(given.take(i + 1).drop_last() =~= given.take(i as int));
        assert(given.take(i + 1).last() == all@[i as int]@);
        d = apply_line(d, all[i].as_str());
        i = i + 1;
    }
    assert(given.take(given.len() as int) =~= given);
    if d.id.is_none() && d.version_id.is_none() && d.version_codename.is_none() && d.id_like.len()
        == 0 {
        assert(d@ =~= unknown_distribution());
        None
    } else {
        proof {
            if d@ == unknown_distribution() {
                assert(texts(d.id_like@).len() == 0);
            }
        }
        Some(d)
    }
}

/// The text of an os-release file that is small enough and UTF-8.
pub open spec fn bounded_text(bytes: Seq<u8>) -> Option<Seq<char>> {
    if bytes.len() > MAX_OS_RELEASE_BYTES {
        None
    } else {
        utf8_text(bytes)
    }
}

/// The text of an os-release file of which up to one byte more than the limit
/// was read.
pub fn read_bounded(bytes: &Vec<u8>) -> (r: Option<String>)
    ensures
        opt_text(r) == bounded_text(bytes@),
{
    if bytes.len() as u64 > MAX_OS_RELEASE_BYTES {
        return None;
    }
    decode(bytes.as_slice())
}

/// The distribution that the first telling candidate describes. A candidate is
/// `None` where the file could not be read.
pub open spec fn detected(candidates: Seq<Option<Vec<u8>>>) -> Option<DistributionView>
    decreases candidates.len(),
{
    if candidates.len() == 0 {
        None
    } else {
        match candidate(candidates[0]) {
            Some(d) => Some(d),
            None => detected(candidates.drop_first()),
        }
    }
}

/// The distribution that one candidate describes.
pub open spec fn candidate(file: Option<Vec<u8>>) -> Option<DistributionView> {
    match file {
        None => None,
        Some(bytes) => match bounded_text(bytes@) {
            Some(contents) => os_release(contents),
            None => None,
        },
    }
}

/// The distribution that the first telling candidate describes.
pub fn detect_distribution(candidates: &Vec<Option<Vec<u8>>>) -> (r: Option<DistributionInfo>)
    ensures
        distribution_view(r) == detected(candidates@),
{
    let mut i: usize = 0;
    assert(candidates@.skip(0) =~= candidates@);
    while i < candidates.len()
        invariant
            i <= candidates@.len(),
            detected(candidates@) == detected(candidates@.skip(i as int)),
        decreases candidates@.len() - i,
    {
        let ghost rest = candidates@.skip(i as int);
        assert(rest[0] == candidates@[i as int]);
        assert(rest.drop_first() =~= candidates@.skip(i + 1));
        match &candidates[i] {
            Some(bytes) => {
                match read_bounded(bytes) {
                    Some(contents) => {
                        match parse_os_release(contents.as_str()) {
                            Some(d) => {
                                return Some(d);
                            },
                            None => {},
                        }
                    },
                    None => {},
                }
            },
            None => {},
        }
        i = i + 1;
    }
    assert(candidates@.skip(i as int) =~= seq![]);
    None
}

// ---------------------------------------------------------------------------
// The description for a model.

/// The texts of a list as JSON strings.
pub open spec fn json_texts(values: Seq<Seq<char>>) -> Seq<Seq<char>> {
    values.map_values(|value: Seq<char>| json_text(value))
}

/// A member of a JSON object where there is a text for it.
pub open spec fn text_member(name: Seq<char>, value: Option<Seq<char>>) -> Seq<Seq<char>> {
    match value {
        Some(text) => seq![name + json_text(text)],
        None => seq![],
    }
}

/// The members of a distribution's JSON object.
pub open spec fn distribution_members(d: DistributionView) -> Seq<Seq<char>> {
    text_member("\"id\":"@, d.id) + text_member("\"version_id\":"@, d.version_id) + text_member(
        "\"version_codename\":"@,
        d.version_codename,
    ) + if d.id_like.len() == 0 {
        Seq::<Seq<char>>::empty()
    } else {
        seq!["\"id_like\":["@ + joined(json_texts(d.id_like), ","@) + "]"@]
    }
}

/// The host system as a JSON object.
pub open spec fn system_json(
    os: Seq<char>,
    architecture: Seq<char>,
    distribution: Option<DistributionView>,
) -> Seq<char> {
    "{\"os\":"@ + json_text(os) + ",\"architecture\":"@ + json_text(architecture) + (
    match distribution {
        Some(d) => ",\"distribution\":{"@ + joined(distribution_members(d), ","@) + "}"@,
        None => ""@,
    }) + "}"@
}

fn push_member(members: Vec<String>, name: &str, value: &Option<String>) -> (r: Vec<String>)
    ensures
        texts(r@) == texts(members@) + text_member(name@, opt_text(*value)),
{
    let mut members = members;
    match value {
        Some(text) => {
            let ghost before = members@;
            let member = join2(name, json_quoted(text.as_str()).as_str());
            members.push(member);
            assert(texts(members@) =~= texts(before) + seq![member@]);
        },
        None => {
            assert(texts(members@) + Seq::<Seq<char>>::empty() =~= texts(members@));
        },
    }
    members
}

fn quote_all(values: &Vec<String>) -> (r: Vec<String>)
    ensures
        texts(r@) == json_texts(texts(values@)),
{
    let mut out: Vec<String> = Vec::new();
    let mut i: usize = 0;
    let ghost quoted = json_texts(texts(values@));
    assert(texts(out@) =~= quoted.take(0));
    while i < values.len()
        invariant
            quoted == json_texts(texts(values@)),
            i <= values@.len(),
            texts(out@) == quoted.take(i as int),
        decreases values@.len() - i,
    {
        let ghost before = out@;
        let text = json_quoted(values[i].as_str());
        out.push(text);
        assert(texts(out@) =~= texts(before).push(text@));
        assert(quoted.take(i + 1) =~= quoted.take(i as int).push(quoted[i as int]));
        i = i + 1;
    }
    assert(quoted.take(quoted.len() as int) =~= quoted);
    out
}

/// The members of a distribution's JSON object.
fn members_of(d: &DistributionInfo) -> (r: Vec<String>)
    ensures
        texts(r@) == distribution_members(d@),
{
    let members: Vec<String> = Vec::new();
    assert(texts(members@) =~= Seq::<Seq<char>>::empty());
    let members = push_member(members, "\"id\":", &d.id);
    assert(texts(members@) =~= text_member("\"id\":"@, d@.id));
    let members = push_member(members, "\"version_id\":", &d.version_id);
    let mut members = push_member(members, "\"version_codename\":", &d.version_codename);
    if d.id_like.len() == 0 {
        assert(texts(members@) + Seq::<Seq<char>>::empty() =~= texts(members@));
    } else {
        let ghost before = members@;
        let quoted = quote_all(&d.id_like);
        let mut list = "\"id_like\":[".to_owned();
        list.push_str(join_all(&quoted, ",").as_str());
        list.push_str("]");
        members.push(list);
        assert(texts(members@) =~= texts(before) + seq![list@]);
    }
    members
}

impl SystemInfo {
    /// The host system as a JSON object.
    pub fn model_context(&self) -> (r: String)
        ensures
            r@ == system_json(
                self.os@,
                self.architecture@,
                distribution_view(self.distribution),
            ),
    {
        let mut out = "{\"os\":".to_owned();
        out.push_str(json_quoted(self.os).as_str());
        out.push_str(",\"architecture\":");
        out.push_str(json_quoted(self.architecture).as_str());
        match &self.distribution {
            Some(d) => {
                let ghost before = out@;
                let members = members_of(d);
                out.push_str(",\"distribution\":{");
                out.push_str(join_all(&members, ",").as_str());
                out.push_str("}");
                assert(out@ =~= before + (",\"distribution\":{"@ + joined(
                    distribution_members(d@),
                    ","@,
                ) + "}"@));
            },
            None => {
                out.push_str("");
            },
        }
        out.push_str("}");
        out
    }

    /// The host system, from what the build and the os-release files tell.
    pub fn detect(
        os: &'static str,
        architecture: &'static str,
        candidates: &Vec<Option<Vec<u8>>>,
    ) -> (r: Self)
        ensures
            r.os@ == os@,
            r.architecture@ == architecture@,
            distribution_view(r.distribution) == detected(candidates@),
    {
        SystemInfo { os, architecture, distribution: detect_distribution(candidates) }
    }
}

// ---------------------------------------------------------------------------
// Laws.

/// Whether every text that is told of a distribution is an identifier.
pub open spec fn tells_only_identifiers(d: DistributionView) -> bool {
    let max = MAX_IDENTIFIER_BYTES as nat;
    &&& d.id is Some ==> is_identifier(d.id->0, max)
    &&& d.version_id is Some ==> is_identifier(d.version_id->0, max)
    &&& d.version_codename is Some ==> is_identifier(d.version_codename->0, max)
    &&& forall|i: int| 0 <= i < d.id_like.len() ==> is_identifier(#[trigger] d.id_like[i], max)
}

proof fn lemma_identifiers(values: Seq<Seq<char>>)
    ensures
        forall|i: int|
            0 <= i < identifiers(values).len() ==> is_identifier(
                #[trigger] identifiers(values)[i],
                MAX_IDENTIFIER_BYTES as nat,
            ),
    decreases values.len(),
{
    if values.len() > 0 {
        let front = identifiers(values.drop_last());
        lemma_identifiers(values.drop_last());
        assert forall|i: int| 0 <= i < identifiers(values).len() implies is_identifier(
            #[trigger] identifiers(values)[i],
            MAX_IDENTIFIER_BYTES as nat,
        ) by {
            if i < front.len() {
                assert(identifiers(values)[i] == front[i]);
            }
        }
    }
}

proof fn lemma_lines_tell_only_identifiers(lines: Seq<Seq<char>>)
    ensures
        tells_only_identifiers(with_lines(lines)),
    decreases lines.len(),
{
    if lines.len() > 0 {
        lemma_lines_tell_only_identifiers(lines.drop_last());
        let line = trim(lines.last());
        let at = first_position(line, '=');
        if at < line.len() {
            match value_of(trim(line.skip(at + 1))) {
                Some(value) => lemma_identifiers(words(value, Separator::AsciiWhitespace)),
                None => {},
            }
        }
    }
}

/// Whatever an os-release file holds, only identifiers of it are told, and at least
/// one: short texts of ASCII letters and digits, dots, underscores and hyphens.
pub proof fn os_release_tells_only_identifiers(contents: Seq<char>)
    ensures
        os_release(contents) matches Some(d) ==> tells_only_identifiers(d) && (d.id is Some
            || d.version_id is Some || d.version_codename is Some || d.id_like.len() > 0),
{
    lemma_lines_tell_only_identifiers(lines(contents));
    let d = with_lines(lines(contents));
    if d.id is None && d.version_id is None && d.version_codename is None && d.id_like.len() == 0 {
        assert(d =~= unknown_distribution());
    }
}

/// The key that a line of an os-release file sets, if it sets any.
pub open spec fn line_key(line: Seq<char>) -> Option<Seq<char>> {
    let line = trim(line);
    let at = first_position(line, '=');
    if line.len() == 0 || line[0] == '#' || at >= line.len() {
        None
    } else {
        Some(line.take(at))
    }
}

/// The value that a line of an os-release file sets its key to. `None` where it
/// sets no key or its value cannot be decoded.
pub open spec fn line_value(line: Seq<char>) -> Option<Seq<char>> {
    let trimmed_line = trim(line);
    if line_key(line) is Some {
        value_of(trim(trimmed_line.skip(first_position(trimmed_line, '=') + 1)))
    } else {
        None
    }
}

/// Whether a key is one of the four that are read.
pub open spec fn is_read_key(key: Option<Seq<char>>) -> bool {
    key == Some("ID"@) || key == Some("VERSION_ID"@) || key == Some("VERSION_CODENAME"@) || key
        == Some("ID_LIKE"@)
}

/// The lines of a list that set one of the keys that are read.
pub open spec fn read_lines(lines: Seq<Seq<char>>) -> Seq<Seq<char>>
    decreases lines.len(),
{
    if lines.len() == 0 {
        seq![]
    } else {
        let front = read_lines(lines.drop_last());
        if is_read_key(line_key(lines.last())) {
            front.push(lines.last())
        } else {
            front
        }
    }
}

proof fn lemma_other_lines(lines: Seq<Seq<char>>)
    ensures
        with_lines(read_lines(lines)) == with_lines(lines),
    decreases lines.len(),
{
    if lines.len() > 0 {
        lemma_other_lines(lines.drop_last());
        let front = read_lines(lines.drop_last());
        if is_read_key(line_key(lines.last())) {
            assert(front.push(lines.last()).drop_last() =~= front);
        }
    }
}

/// Lines of other keys play no part: a file that holds only the lines of the keys
/// that are read tells the same.
pub proof fn other_lines_play_no_part(contents: Seq<char>, other: Seq<char>)
    requires
        lines(other) == read_lines(lines(contents)),
    ensures
        os_release(other) == os_release(contents),
{
    lemma_other_lines(lines(contents));
}

/// The value of the last line that sets a key and can be decoded.
pub open spec fn last_value(lines: Seq<Seq<char>>, key: Seq<char>) -> Option<Seq<char>>
    decreases lines.len(),
{
    if lines.len() == 0 {
        None
    } else if line_key(lines.last()) == Some(key) && line_value(lines.last()) is Some {
        line_value(lines.last())
    } else {
        last_value(lines.drop_last(), key)
    }
}

/// The identifier that a value is, if there is one.
pub open spec fn identifier_in(value: Option<Seq<char>>) -> Option<Seq<char>> {
    match value {
        Some(value) => identifier(value),
        None => None,
    }
}

/// The identifiers that a value lists, if there is one.
pub open spec fn identifiers_in(value: Option<Seq<char>>) -> Seq<Seq<char>> {
    match value {
        Some(value) => identifiers(words(value, Separator::AsciiWhitespace)),
        None => seq![],
    }
}

/// What the last lines of the keys tell of a distribution.
pub open spec fn told_last(lines: Seq<Seq<char>>) -> DistributionView {
    DistributionView {
        id: identifier_in(last_value(lines, "ID"@)),
        version_id: identifier_in(last_value(lines, "VERSION_ID"@)),
        version_codename: identifier_in(last_value(lines, "VERSION_CODENAME"@)),
        id_like: identifiers_in(last_value(lines, "ID_LIKE"@)),
    }
}

proof fn lemma_last_lines(lines: Seq<Seq<char>>)
    ensures
        with_lines(lines) == told_last(lines),
    decreases lines.len(),
{
    if lines.len() > 0 {
        lemma_last_lines(lines.drop_last());
        reveal_strlit("ID");
        reveal_strlit("VERSION_ID");
        reveal_strlit("VERSION_CODENAME");
        reveal_strlit("ID_LIKE");
        assert("ID"@.len() == 2 && "VERSION_ID"@.len() == 10 && "VERSION_CODENAME"@.len() == 16
            && "ID_LIKE"@.len() == 7);
        assert(with_lines(lines) =~= told_last(lines));
    } else {
        assert(with_lines(lines) =~= told_last(lines));
    }
}

/// Of the lines of one key, the last that can be decoded decides.
pub proof fn last_lines_decide(contents: Seq<char>)
    ensures
        ({
            let told = told_last(lines(contents));
            os_release(contents) == (if told == unknown_distribution() {
                None
            } else {
                Some(told)
            })
        }),
{
    lemma_last_lines(lines(contents));
}

proof fn lemma_plain_value(s: Seq<char>)
    requires
        forall|i: int| 0 <= i < s.len() ==> #[trigger] s[i] != '\\' && !is_control(s[i]),
    ensures
        unescaped(s) == Some(s),
    decreases s.len(),
{
    if s.len() > 0 {
        lemma_plain_value(s.skip(1));
        assert(seq![s[0]] + s.skip(1) =~= s);
    } else {
        assert(s =~= seq![]);
    }
}

/// A value is what stands between quotation marks of either kind, or the text
/// itself where it has none. A backslash takes the next character as it is. A mark
/// that is not closed spoils the value.
pub proof fn values_are_read_with_or_without_marks(value: Seq<char>, c: char)
    requires
        forall|i: int| 0 <= i < value.len() ==> #[trigger] value[i] != '\\' && !is_control(value[i]),
    ensures
        value_of("\""@ + value + "\""@) == Some(value),
        value_of("'"@ + value + "'"@) == Some(value),
        value.len() > 0 && value[0] != '"' && value[0] != '\'' ==> value_of(value) == Some(value),
        value.len() > 0 && value.last() != '"' ==> value_of("\""@ + value) is None,
        value_of("\""@ + ("\\"@ + seq![c] + value) + "\""@) == Some(seq![c] + value),
{
    reveal_strlit("\"");
    reveal_strlit("'");
    reveal_strlit("\\");
    lemma_plain_value(value);
    let double = "\""@ + value + "\""@;
    assert(double[0] == '"' && double.last() == '"');
    assert(double.subrange(1, double.len() - 1) =~= value);
    let single = "'"@ + value + "'"@;
    assert(single[0] == '\'' && single.last() == '\'');
    assert(single.subrange(1, single.len() - 1) =~= value);
    let open_only = "\""@ + value;
    assert(open_only[0] == '"');
    if value.len() > 0 {
        assert(open_only.last() == value.last());
    }
    let inner = "\\"@ + seq![c] + value;
    let whole = "\""@ + inner + "\""@;
    assert(whole[0] == '"' && whole.last() == '"');
    assert(whole.subrange(1, whole.len() - 1) =~= inner);
    assert(inner[0] == '\\' && inner[1] == c);
    assert(inner.skip(2) =~= value);
}

proof fn lemma_identifier_is_visible(value: Seq<char>)
    requires
        is_identifier(value, 64),
    ensures
        value.len() > 0,
        forall|i: int|
            0 <= i < value.len() ==> #[trigger] value[i] != '\\' && !is_control(value[i])
                && !is_whitespace(value[i]) && value[i] != '"' && value[i] != '\'' && value[i]
                != '=' && value[i] != '#',
{
    assert forall|i: int| 0 <= i < value.len() implies #[trigger] value[i] != '\\' && !is_control(
        value[i],
    ) && !is_whitespace(value[i]) && value[i] != '"' && value[i] != '\'' && value[i] != '='
        && value[i] != '#' by {
        assert(in_identifier(value[i]));
    }
}

proof fn lemma_set_line(key: Seq<char>, value: Seq<char>)
    requires
        is_identifier(key, 64),
        is_identifier(value, 64),
    ensures
        ({
            let plain = key + "="@ + value;
            let quoted = key + "="@ + "\""@ + value + "\""@;
            &&& line_key(plain) == Some(key)
            &&& line_value(plain) == Some(value)
            &&& line_key(quoted) == Some(key)
            &&& line_value(quoted) == Some(value)
        }),
{
    reveal_strlit("=");
    reveal_strlit("\"");
    lemma_identifier_is_visible(key);
    lemma_identifier_is_visible(value);
    values_are_read_with_or_without_marks(value, 'a');
    let marked = "\""@ + value + "\""@;
    lemma_line(key, value);
    assert(marked[0] == '"' && marked.last() == '"');
    lemma_line(key, marked);
    assert(key + "="@ + marked =~= key + "="@ + "\""@ + value + "\""@);
}

proof fn lemma_line(key: Seq<char>, raw: Seq<char>)
    requires
        is_identifier(key, 64),
        raw.len() > 0,
        !is_whitespace(raw[0]),
        !is_whitespace(raw.last()),
    ensures
        line_key(key + "="@ + raw) == Some(key),
        line_value(key + "="@ + raw) == value_of(raw),
{
    reveal_strlit("=");
    lemma_identifier_is_visible(key);
    let line = key + "="@ + raw;
    let n = key.len() as int;
    assert(line[0] == key[0] && line.last() == raw.last());
    lemma_trim_fixed(line);
    lemma_trim_fixed(raw);
    lemma_first_position(line, '=');
    assert(line[n] == '=');
    assert forall|k: int| 0 <= k < n implies line[k] != '=' by {
        assert(line[k] == key[k]);
    }
    assert(first_position(line, '=') == n);
    assert(line.take(n) =~= key);
    assert(line.skip(n + 1) =~= raw);
}

/// The line that sets an identifier, with or without quotation marks, sets that
/// part of the distribution and no other.
pub proof fn lines_set_their_own_part(d: DistributionView, value: Seq<char>)
    requires
        is_identifier(value, 64),
    ensures
        ({
            &&& with_line(d, "ID"@ + "="@ + value) == (DistributionView { id: Some(value), ..d })
            &&& with_line(d, "VERSION_ID"@ + "="@ + "\""@ + value + "\""@) == (DistributionView {
                version_id: Some(value),
                ..d
            })
            &&& with_line(d, "VERSION_CODENAME"@ + "="@ + value) == (DistributionView {
                version_codename: Some(value),
                ..d
            })
            &&& with_line(d, "ID_LIKE"@ + "="@ + value) == (DistributionView {
                id_like: seq![value],
                ..d
            })
            &&& with_line(d, "PRETTY_NAME"@ + "="@ + value) == d
        }),
{
    reveal_strlit("ID");
    reveal_strlit("VERSION_ID");
    reveal_strlit("VERSION_CODENAME");
    reveal_strlit("ID_LIKE");
    reveal_strlit("PRETTY_NAME");
    lemma_short_identifier("ID"@);
    lemma_short_identifier("VERSION_ID"@);
    lemma_short_identifier("VERSION_CODENAME"@);
    lemma_short_identifier("ID_LIKE"@);
    lemma_short_identifier("PRETTY_NAME"@);
    lemma_set_line("ID"@, value);
    lemma_set_line("VERSION_ID"@, value);
    lemma_set_line("VERSION_CODENAME"@, value);
    lemma_set_line("ID_LIKE"@, value);
    lemma_set_line("PRETTY_NAME"@, value);
    assert("ID"@.len() == 2 && "VERSION_ID"@.len() == 10 && "VERSION_CODENAME"@.len() == 16
        && "ID_LIKE"@.len() == 7 && "PRETTY_NAME"@.len() == 11);
    lemma_identifier_is_visible(value);
    texts_without_separators_are_words(value, Separator::AsciiWhitespace);
    assert(seq![value].drop_last() =~= seq![]);
    assert(identifiers(seq![value].drop_last()) =~= seq![]);
    assert(identifiers(seq![value]) =~= seq![value]);
}

proof fn lemma_short_identifier(s: Seq<char>)
    requires
        0 < s.len() <= 16,
        forall|i: int| 0 <= i < s.len() ==> in_identifier(#[trigger] s[i]),
    ensures
        is_identifier(s, 64),
{
    lemma_ascii_bytes(s);
}

proof fn lemma_one_byte(c: char)
    requires
        c <= '\u{7f}',
    ensures
        vstd::utf8::encode_scalar(c as u32).len() == 1,
{
}

/// A text of ASCII takes as many bytes as it has characters.
proof fn lemma_ascii_bytes(s: Seq<char>)
    requires
        forall|i: int| 0 <= i < s.len() ==> #[trigger] s[i] <= '\u{7f}',
    ensures
        byte_length(s) == s.len(),
    decreases s.len(),
{
    if s.len() > 0 {
        lemma_ascii_bytes(s.drop_first());
        lemma_one_byte(s[0]);
    }
}

/// An identifier is kept where it has 1 to 64 bytes, all of them letters, digits,
/// dots, underscores or hyphens of ASCII. Every other text is dropped, and what is
/// kept is never altered.
pub proof fn only_identifiers_are_kept(value: Seq<char>)
    ensures
        identifier(value) is Some ==> identifier(value) == Some(value),
        identifier(value) is Some <==> {
            &&& 1 <= value.len()
            &&& byte_length(value) <= 64
            &&& forall|i: int|
                0 <= i < value.len() ==> {
                    ||| 'a' <= #[trigger] value[i] <= 'z'
                    ||| 'A' <= value[i] <= 'Z'
                    ||| '0' <= value[i] <= '9'
                    ||| value[i] == '.'
                    ||| value[i] == '_'
                    ||| value[i] == '-'
                }
        },
{
    if identifier(value) is Some {
        assert forall|i: int| 0 <= i < value.len() implies {
            ||| 'a' <= #[trigger] value[i] <= 'z'
            ||| 'A' <= value[i] <= 'Z'
            ||| '0' <= value[i] <= '9'
            ||| value[i] == '.'
            ||| value[i] == '_'
            ||| value[i] == '-'
        } by {
            assert(in_identifier(value[i]));
        }
    }
}

/// The first file that tells anything of the distribution decides, however many
/// before it could not be read or tell nothing. A file of more than 32768 bytes
/// tells nothing.
pub proof fn the_first_telling_file_decides(candidates: Seq<Option<Vec<u8>>>, k: int)
    requires
        0 <= k < candidates.len(),
        forall|j: int| 0 <= j < k ==> candidate(#[trigger] candidates[j]) is None,
    ensures
        candidate(candidates[k]) is Some ==> detected(candidates) == candidate(candidates[k]),
        k + 1 == candidates.len() && candidate(candidates[k]) is None ==> detected(candidates)
            is None,
        candidates[k] is None ==> candidate(candidates[k]) is None,
        candidates[k] matches Some(bytes) ==> bytes@.len() > 32768 ==> candidate(
            candidates[k],
        ) is None,
        candidates[k] matches Some(bytes) ==> bytes@.len() <= 32768 && valid_utf8(bytes@)
            ==> candidate(candidates[k]) == os_release(vstd::utf8::decode_utf8(bytes@)),
    decreases k,
{
    if k > 0 {
        let rest = candidates.drop_first();
        assert forall|j: int| 0 <= j < k - 1 implies candidate(#[trigger] rest[j]) is None by {
            assert(rest[j] == candidates[j + 1]);
        }
        assert(candidate(candidates[0]) is None);
        assert(rest[k - 1] == candidates[k]);
        the_first_telling_file_decides(rest, k - 1);
    } else if candidates.len() == 1 {
        assert(detected(candidates.drop_first()) is None);
    }
}

/// The host is described as one JSON object with the operating system and the
/// architecture, and with what is known of the distribution, part by part.
pub proof fn hosts_are_described_part_by_part(
    os: Seq<char>,
    architecture: Seq<char>,
    d: DistributionView,
)
    ensures
        system_json(os, architecture, None) == "{\"os\":"@ + json_text(os) + ",\"architecture\":"@
            + json_text(architecture) + "}"@,
        system_json(os, architecture, Some(d)) == "{\"os\":"@ + json_text(os)
            + ",\"architecture\":"@ + json_text(architecture) + (",\"distribution\":{"@ + joined(
            distribution_members(d),
            ","@,
        ) + "}"@) + "}"@,
        distribution_members(d) == (match d.id {
            Some(id) => seq!["\"id\":"@ + json_text(id)],
            None => seq![],
        }) + (match d.version_id {
            Some(version) => seq!["\"version_id\":"@ + json_text(version)],
            None => seq![],
        }) + (match d.version_codename {
            Some(codename) => seq!["\"version_codename\":"@ + json_text(codename)],
            None => seq![],
        }) + (if d.id_like.len() > 0 {
            seq!["\"id_like\":["@ + joined(json_texts(d.id_like), ","@) + "]"@]
        } else {
            seq![]
        }),
{
    reveal_strlit("");
    let head = "{\"os\":"@ + json_text(os) + ",\"architecture\":"@ + json_text(architecture);
    assert(head + ""@ =~= head);
}

/// Blank lines, comments and lines that set nothing tell nothing.
pub proof fn comments_tell_nothing(d: DistributionView, line: Seq<char>)
    requires
        trim(line).len() == 0 || trim(line)[0] == '#' || forall|i: int|
            0 <= i < trim(line).len() ==> #[trigger] trim(line)[i] != '=',
    ensures
        with_line(d, line) == d,
{
    lemma_first_position(trim(line), '=');
}

proof fn lemma_all_identifiers(values: Seq<Seq<char>>)
    requires
        forall|k: int| 0 <= k < values.len() ==> is_identifier(#[trigger] values[k], 64),
    ensures
        identifiers(values) == values,
    decreases values.len(),
{
    if values.len() > 0 {
        let front = values.drop_last();
        assert forall|k: int| 0 <= k < front.len() implies is_identifier(
            #[trigger] front[k],
            64,
        ) by {
            assert(front[k] == values[k]);
        }
        lemma_all_identifiers(front);
        assert(is_identifier(values[values.len() - 1], 64));
        assert(front.push(values.last()) =~= values);
    } else {
        assert(identifiers(values) =~= values);
    }
}

proof fn lemma_joined_is_plain(values: Seq<Seq<char>>)
    requires
        forall|k: int| 0 <= k < values.len() ==> is_identifier(#[trigger] values[k], 64),
    ensures
        forall|i: int|
            0 <= i < joined(values, " "@).len() ==> #[trigger] joined(values, " "@)[i] != '\\'
                && !is_control(joined(values, " "@)[i]),
    decreases values.len(),
{
    reveal_strlit(" ");
    if values.len() > 0 {
        let front = values.drop_last();
        let last = values.last();
        assert forall|k: int| 0 <= k < front.len() implies is_identifier(
            #[trigger] front[k],
            64,
        ) by {
            assert(front[k] == values[k]);
        }
        assert(is_identifier(values[values.len() - 1], 64));
        lemma_identifier_is_visible(last);
        lemma_joined_is_plain(front);
        let whole = joined(values, " "@);
        let before = joined(front, " "@);
        if values.len() > 1 {
            assert forall|i: int| 0 <= i < whole.len() implies #[trigger] whole[i] != '\\'
                && !is_control(whole[i]) by {
                if i < before.len() {
                    assert(whole[i] == before[i]);
                } else if i == before.len() {
                    assert(whole[i] == ' ');
                } else {
                    assert(whole[i] == last[i - before.len() - 1]);
                }
            }
        }
    }
}

/// The line that lists what a distribution is like lists all of them, in their
/// order.
pub proof fn related_distributions_are_listed_in_order(
    d: DistributionView,
    values: Seq<Seq<char>>,
)
    requires
        forall|k: int| 0 <= k < values.len() ==> is_identifier(#[trigger] values[k], 64),
    ensures
        with_line(d, "ID_LIKE"@ + "="@ + ("\""@ + joined(values, " "@) + "\""@)) == (
        DistributionView { id_like: values, ..d }),
{
    reveal_strlit("ID_LIKE");
    reveal_strlit("ID");
    reveal_strlit("VERSION_ID");
    reveal_strlit("VERSION_CODENAME");
    reveal_strlit("\"");
    reveal_strlit(" ");
    assert("ID"@.len() == 2 && "VERSION_ID"@.len() == 10 && "VERSION_CODENAME"@.len() == 16
        && "ID_LIKE"@.len() == 7);
    let list = joined(values, " "@);
    let raw = "\""@ + list + "\""@;
    lemma_short_identifier("ID_LIKE"@);
    assert(raw[0] == '"' && raw.last() == '"');
    lemma_line("ID_LIKE"@, raw);
    lemma_joined_is_plain(values);
    values_are_read_with_or_without_marks(list, 'a');
    assert(" "@ =~= seq![' ']);
    assert forall|k: int| 0 <= k < values.len() implies (#[trigger] values[k]).len() > 0 by {
        assert(is_identifier(values[k], 64));
    }
    assert forall|k: int, i: int|
        0 <= k < values.len() && 0 <= i < values[k].len() implies !separates(
        #[trigger] values[k][i],
        Separator::AsciiWhitespace,
    ) by {
        assert(is_identifier(values[k], 64));
        assert(in_identifier(values[k][i]));
    }
    joined_words_are_found_again(values, ' ', Separator::AsciiWhitespace);
    lemma_all_identifiers(values);
}

} // verus!
