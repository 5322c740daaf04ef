//! Media profiles of a device and the streams that belong to them.

use crate::device::{
    InterrogationError, InterrogationErrorView, MediaStream, MediaStreamView, Resolution,
    StreamType, VideoEncoding, VideoEncodingView,
};
use crate::elements;
use crate::text;
use crate::xml;
use crate::xml::{XmlAttribute, XmlAttributeView, XmlEvent, XmlEventView};
use vstd::prelude::*;
use vstd::utf8::*;

verus! {

/// Profile information from GetProfiles
#[derive(Debug, Clone)]
pub struct ProfileInfo {
    pub token: String,
    pub name: String,
    pub video_encoding: VideoEncoding,
    pub resolution: Resolution,
}

/// The view of a `ProfileInfo`.
#[verifier::ext_equal]
pub struct ProfileInfoView {
    pub token: Seq<char>,
    pub name: Seq<char>,
    pub video_encoding: VideoEncodingView,
    pub resolution: Resolution,
}

impl View for ProfileInfo {
    type V = ProfileInfoView;

    open spec fn view(&self) -> ProfileInfoView {
        ProfileInfoView {
            token: self.token@,
            name: self.name@,
            video_encoding: self.video_encoding@,
            resolution: self.resolution,
        }
    }
}

/// The views of a row of profiles.
pub open spec fn profile_views(profiles: Seq<ProfileInfo>) -> Seq<ProfileInfoView> {
    profiles.map_values(|p: ProfileInfo| p@)
}

// ---------------------------------------------------------------------------------------------
// Profiles that the response lists
// ---------------------------------------------------------------------------------------------

/// `name` is that of a profile, alone or with the prefix of the media service namespace.
pub open spec fn names_profile(name: Seq<char>) -> bool {
    name == "Profiles"@ || name == "trt:Profiles"@
}

/// The value of the last attribute `token` that can be read; empty if there is none.
pub open spec fn token_of(attributes: Seq<XmlAttributeView>) -> Seq<char>
    decreases attributes.len(),
{
    if attributes.len() == 0 {
        Seq::empty()
    } else if attributes.last().key == "token"@ && attributes.last().value is Some {
        attributes.last().value->0
    } else {
        token_of(attributes.drop_last())
    }
}

/// Event `n` stands inside a profile.
pub open spec fn in_profile_at(events: Seq<XmlEventView>, n: int) -> bool
    decreases n,
{
    if n <= 0 {
        false
    } else {
        match events[n - 1] {
            XmlEventView::Start { name, .. } if names_profile(name) => true,
            XmlEventView::End(name) if names_profile(name) => false,
            _ => in_profile_at(events, n - 1),
        }
    }
}

/// The token of the profile at event `n`.
pub open spec fn token_at(events: Seq<XmlEventView>, n: int) -> Seq<char>
    decreases n,
{
    if n <= 0 {
        Seq::empty()
    } else {
        match events[n - 1] {
            XmlEventView::Start { name, attributes } if names_profile(name) => token_of(attributes),
            _ => token_at(events, n - 1),
        }
    }
}

/// The first text of the profile at event `n` that is more than white space; empty if there is
/// none yet.
pub open spec fn name_at(events: Seq<XmlEventView>, n: int) -> Seq<char>
    decreases n,
{
    if n <= 0 {
        Seq::empty()
    } else {
        match events[n - 1] {
            XmlEventView::Start { name, .. } if names_profile(name) => Seq::empty(),
            XmlEventView::Text(Ok(t)) if in_profile_at(events, n - 1) && name_at(
                events,
                n - 1,
            ).len() == 0 => text::trim(t),
            _ => name_at(events, n - 1),
        }
    }
}

/// A profile, of which no more than the token and the name is read out of a response. Without a
/// name it is named after its token.
pub open spec fn profile(token: Seq<char>, name: Seq<char>) -> ProfileInfoView {
    ProfileInfoView {
        token,
        name: if name.len() > 0 {
            name
        } else {
            "Profile_"@ + token
        },
        video_encoding: VideoEncodingView::H264,
        resolution: Resolution { width: 1920, height: 1080 },
    }
}

/// The profiles with a token whose end tag is among the first `n` events. What cannot be read is
/// passed over.
pub open spec fn profiles_at(events: Seq<XmlEventView>, n: int) -> Seq<ProfileInfoView>
    decreases n,
{
    if n <= 0 {
        Seq::empty()
    } else {
        let before = profiles_at(events, n - 1);
        match events[n - 1] {
            XmlEventView::End(name) if names_profile(name) && in_profile_at(events, n - 1)
                && token_at(events, n - 1).len() > 0 => before.push(
                profile(token_at(events, n - 1), name_at(events, n - 1)),
            ),
            _ => before,
        }
    }
}

// ---------------------------------------------------------------------------------------------
// Profiles guessed from tokens in the response
// ---------------------------------------------------------------------------------------------

/// What stands between the quotes of the first `token="` of a line, if it is not empty.
pub open spec fn line_token(line: Seq<char>) -> Option<Seq<char>> {
    match text::find(line, "token=\""@, 0) {
        None => None,
        Some(i) => {
            let start = i + "token=\""@.len();
            let end = text::index_of(line, '"', start);
            if start < end < line.len() {
                Some(line.subrange(start, end))
            } else {
                None
            }
        },
    }
}

/// A profile for each of the lines that holds a token.
pub open spec fn line_profiles(lines: Seq<Seq<char>>) -> Seq<ProfileInfoView>
    decreases lines.len(),
{
    if lines.len() == 0 {
        Seq::empty()
    } else {
        let before = line_profiles(lines.drop_last());
        match line_token(lines.last()) {
            Some(token) => before.push(profile(token, Seq::empty())),
            None => before,
        }
    }
}

// ---------------------------------------------------------------------------------------------
// The response
// ---------------------------------------------------------------------------------------------

/// The profiles that a GetProfiles response with these events lists; failing that, those that its
/// lines hold a token of; failing that, why there are none.
pub open spec fn profiles_of(xml: Seq<char>, events: Seq<XmlEventView>) -> Result<
    Seq<ProfileInfoView>,
    InterrogationErrorView,
> {
    let listed = profiles_at(events, events.len() as int);
    let guessed = line_profiles(text::lines(xml, 0));
    if listed.len() > 0 {
        Ok(listed)
    } else if guessed.len() > 0 {
        Ok(guessed)
    } else {
        Err(
            InterrogationErrorView::InvalidResponse("No profiles found in GetProfiles response"@),
        )
    }
}

/// The view of profiles, or of why there are none.
pub open spec fn profiles_view(r: Result<Vec<ProfileInfo>, InterrogationError>) -> Result<
    Seq<ProfileInfoView>,
    InterrogationErrorView,
> {
    match r {
        Ok(profiles) => Ok(profile_views(profiles@)),
        Err(e) => Err(e@),
    }
}

/// A profile that a response lists has a token and a name.
proof fn lemma_listed_profile(events: Seq<XmlEventView>, n: int, k: int)
    requires
        0 <= k < profiles_at(events, n).len(),
    ensures
        profiles_at(events, n)[k].token.len() > 0,
        profiles_at(events, n)[k].name.len() > 0,
    decreases n,
{
    if n > 0 && k < profiles_at(events, n - 1).len() {
        lemma_listed_profile(events, n - 1, k);
    }
}

/// A profile that is guessed from a line has a token and a name.
proof fn lemma_guessed_profile(lines: Seq<Seq<char>>, k: int)
    requires
        0 <= k < line_profiles(lines).len(),
    ensures
        line_profiles(lines)[k].token.len() > 0,
        line_profiles(lines)[k].name.len() > 0,
    decreases lines.len(),
{
    if lines.len() > 0 {
        if k < line_profiles(lines.drop_last()).len() {
            lemma_guessed_profile(lines.drop_last(), k);
        } else {
            text::lemma_find(lines.last(), "token=\""@, 0);
        }
    }
}

/// A response that is accepted brings at least one profile, and every profile has a token and a
/// name.
pub proof fn law_profiles_are_complete(xml: Seq<char>, events: Seq<XmlEventView>)
    requires
        profiles_of(xml, events) is Ok,
    ensures
        profiles_of(xml, events)->Ok_0.len() > 0,
        forall|k: int|
            0 <= k < profiles_of(xml, events)->Ok_0.len() ==> {
                let profile = #[trigger] profiles_of(xml, events)->Ok_0[k];
                profile.token.len() > 0 && profile.name.len() > 0
            },
{
    let listed = profiles_at(events, events.len() as int);
    let guessed = line_profiles(text::lines(xml, 0));
    assert forall|k: int| 0 <= k < listed.len() implies (#[trigger] listed[k]).token.len() > 0
        && listed[k].name.len() > 0 by {
        lemma_listed_profile(events, events.len() as int, k);
    }
    assert forall|k: int| 0 <= k < guessed.len() implies (#[trigger] guessed[k]).token.len() > 0
        && guessed[k].name.len() > 0 by {
        lemma_guessed_profile(text::lines(xml, 0), k);
    }
}

// ---------------------------------------------------------------------------------------------
// Laws
// ---------------------------------------------------------------------------------------------

/// A start tag named `Profiles` or `trt:Profiles`.
pub open spec fn opens_profile(event: XmlEventView) -> bool {
    event is Start && (event->Start_name == "Profiles"@ || event->Start_name == "trt:Profiles"@)
}

/// An end tag named `Profiles` or `trt:Profiles`.
pub open spec fn closes_profile(event: XmlEventView) -> bool {
    event is End && (event->End_0 == "Profiles"@ || event->End_0 == "trt:Profiles"@)
}

/// The profile that is open before event `n` was opened by event `s`.
pub open spec fn opened_by(events: Seq<XmlEventView>, s: int, n: int) -> bool {
    &&& 0 <= s < n
    &&& opens_profile(events[s])
    &&& forall|k: int|
        s < k < n ==> !opens_profile(#[trigger] events[k]) && !closes_profile(events[k])
}

/// Event `k` is a text that is more than white space.
pub open spec fn is_said(events: Seq<XmlEventView>, k: int) -> bool {
    events[k] is Text && events[k]->Text_0 is Ok && text::trim(events[k]->Text_0->Ok_0).len() > 0
}

/// Event `k` is the first text between the events `s` and `n` that is more than white space.
pub open spec fn is_first_said(events: Seq<XmlEventView>, s: int, k: int, n: int) -> bool {
    &&& s < k < n
    &&& is_said(events, k)
    &&& forall|j: int| s < j < k ==> !#[trigger] is_said(events, j)
}

/// The last readable attribute `token`.
pub open spec fn is_last_token(attributes: Seq<XmlAttributeView>, k: int) -> bool {
    &&& 0 <= k < attributes.len()
    &&& attributes[k].key == "token"@ && attributes[k].value is Some
    &&& forall|j: int|
        k < j < attributes.len() ==> !((#[trigger] attributes[j]).key == "token"@
            && attributes[j].value is Some)
}

/// A token is the value of the last attribute `token` that can be read.
pub proof fn law_token(attributes: Seq<XmlAttributeView>)
    ensures
        forall|k: int| #[trigger]
            is_last_token(attributes, k) ==> token_of(attributes) == attributes[k].value->0,
        (forall|j: int|
            0 <= j < attributes.len() ==> !((#[trigger] attributes[j]).key == "token"@
                && attributes[j].value is Some)) ==> token_of(attributes).len() == 0,
    decreases attributes.len(),
{
    if attributes.len() > 0 {
        let before = attributes.drop_last();
        law_token(before);
        assert forall|k: int| #[trigger] is_last_token(attributes, k) implies token_of(attributes)
            == attributes[k].value->0 by {
            if k < before.len() {
                assert(!(attributes[attributes.len() - 1].key == "token"@ && attributes[
                attributes.len() - 1].value is Some));
                assert forall|j: int| k < j < before.len() implies !((
                #[trigger] before[j]).key == "token"@ && before[j].value is Some) by {
                    assert(before[j] == attributes[j]);
                }
                assert(before[k] == attributes[k]);
                assert(is_last_token(before, k));
            }
        }
        if forall|j: int|
            0 <= j < attributes.len() ==> !((#[trigger] attributes[j]).key == "token"@
                && attributes[j].value is Some) {
            assert(!(attributes[attributes.len() - 1].key == "token"@ && attributes[attributes.len()
                - 1].value is Some));
            assert forall|j: int| 0 <= j < before.len() implies !((#[trigger] before[j]).key
                == "token"@ && before[j].value is Some) by {
                assert(before[j] == attributes[j]);
            }
        }
    }
}

/// What is known at event `n` of the profile that event `s` opened: it is open, its token is that
/// of its start tag, and its name is the first text that is more than white space.
pub proof fn law_open_profile(events: Seq<XmlEventView>, s: int, n: int)
    requires
        opened_by(events, s, n),
    ensures
        in_profile_at(events, n),
        token_at(events, n) == token_of(events[s]->Start_attributes),
        forall|k: int| #[trigger]
            is_first_said(events, s, k, n) ==> name_at(events, n) == text::trim(
                events[k]->Text_0->Ok_0,
            ),
        (forall|j: int| s < j < n ==> !#[trigger] is_said(events, j)) ==> name_at(events, n).len()
            == 0,
    decreases n,
{
    if s == n - 1 {
        assert(events[n - 1] == events[s]);
    } else {
        assert(opened_by(events, s, n - 1));
        law_open_profile(events, s, n - 1);
        assert(!opens_profile(events[n - 1]) && !closes_profile(events[n - 1]));
        assert forall|k: int| #[trigger] is_first_said(events, s, k, n) implies name_at(events, n)
            == text::trim(events[k]->Text_0->Ok_0) by {
            if k < n - 1 {
                assert(is_first_said(events, s, k, n - 1));
            } else {
                assert(forall|j: int| s < j < n - 1 ==> !#[trigger] is_said(events, j));
            }
        }
        if forall|j: int| s < j < n ==> !#[trigger] is_said(events, j) {
            assert(forall|j: int| s < j < n - 1 ==> !#[trigger] is_said(events, j));
            assert(!is_said(events, n - 1));
        }
    }
}

/// A profile is open exactly if a start tag of one came, and no tag of one since.
pub proof fn law_in_profile(events: Seq<XmlEventView>, n: int)
    ensures
        in_profile_at(events, n) <==> exists|s: int| #[trigger] opened_by(events, s, n),
    decreases n,
{
    if n > 0 {
        law_in_profile(events, n - 1);
        if opens_profile(events[n - 1]) {
            assert(opened_by(events, n - 1, n));
        } else if closes_profile(events[n - 1]) {
            assert forall|s: int| !#[trigger] opened_by(events, s, n) by {
                if s == n - 1 {
                    assert(events[s] is End);
                }
            }
        } else {
            if in_profile_at(events, n - 1) {
                let s = choose|s: int| #[trigger] opened_by(events, s, n - 1);
                assert(opened_by(events, s, n));
            }
            if exists|s: int| #[trigger] opened_by(events, s, n) {
                let s = choose|s: int| #[trigger] opened_by(events, s, n);
                assert(s != n - 1);
                assert(opened_by(events, s, n - 1));
            }
        }
    }
}

/// The events from `s` to `e` are a profile with a token.
pub open spec fn spans_profile(events: Seq<XmlEventView>, s: int, e: int) -> bool {
    &&& opened_by(events, s, e)
    &&& closes_profile(events[e])
    &&& token_of(events[s]->Start_attributes).len() > 0
}

/// The profile is that of the events from `s` to `e`: it has the token of the start tag and is
/// named by the first text that is more than white space, or after its token.
pub open spec fn is_profile_of(
    events: Seq<XmlEventView>,
    s: int,
    e: int,
    profile: ProfileInfoView,
) -> bool {
    &&& spans_profile(events, s, e)
    &&& profile.token == token_of(events[s]->Start_attributes)
    &&& forall|k: int| #[trigger]
        is_first_said(events, s, k, e) ==> profile.name == text::trim(events[k]->Text_0->Ok_0)
    &&& (forall|j: int| s < j < e ==> !#[trigger] is_said(events, j)) ==> profile.name
        == "Profile_"@ + profile.token
    &&& profile.video_encoding == VideoEncodingView::H264
    &&& profile.resolution.width == 1920
    &&& profile.resolution.height == 1080
}

/// The profiles are those with a token among the first `n` events, one for each, in the order of
/// the document: `ends` lists, in rising order, exactly the events that end one, and `starts` those
/// that begin them.
pub open spec fn are_profiles_in(
    events: Seq<XmlEventView>,
    n: int,
    starts: Seq<int>,
    ends: Seq<int>,
    profiles: Seq<ProfileInfoView>,
) -> bool {
    &&& ends.len() == profiles.len()
    &&& starts.len() == profiles.len()
    &&& forall|a: int, b: int| 0 <= a < b < ends.len() ==> ends[a] < ends[b]
    &&& forall|a: int| 0 <= a < ends.len() ==> 0 <= #[trigger] ends[a] < n
    &&& forall|a: int|
        0 <= a < profiles.len() ==> is_profile_of(events, starts[a], ends[a], #[trigger] profiles[a])
    &&& forall|s: int, e: int|
        0 <= e < n && #[trigger] spans_profile(events, s, e) ==> ends.contains(e)
}

/// Whether a profile has a name is whether it says anything.
proof fn lemma_first_said(events: Seq<XmlEventView>, s: int, n: int) -> (k: int)
    ensures
        is_first_said(events, s, k, n) || forall|j: int|
            s < j < n ==> !#[trigger] is_said(events, j),
    decreases n - s,
{
    if n - 1 <= s {
        0
    } else {
        let k = lemma_first_said(events, s, n - 1);
        if is_first_said(events, s, k, n - 1) {
            assert(is_first_said(events, s, k, n));
            k
        } else {
            if is_said(events, n - 1) {
                assert(is_first_said(events, s, n - 1, n));
            }
            n - 1
        }
    }
}

/// Every profile of a response that has a token is listed once, and nothing else is; the profiles
/// come in the order of the document, each with the token and the name that it has there.
pub proof fn law_profiles(events: Seq<XmlEventView>, n: int)
    ensures
        exists|starts: Seq<int>, ends: Seq<int>| #[trigger]
            are_profiles_in(events, n, starts, ends, profiles_at(events, n)),
    decreases n,
{
    if n <= 0 {
        assert(are_profiles_in(events, n, Seq::empty(), Seq::empty(), profiles_at(events, n)));
    } else {
        law_profiles(events, n - 1);
        law_in_profile(events, n - 1);
        let before = profiles_at(events, n - 1);
        let all = profiles_at(events, n);
        let (starts, ends) = choose|starts: Seq<int>, ends: Seq<int>| #[trigger]
            are_profiles_in(events, n - 1, starts, ends, before);
        if closes_profile(events[n - 1]) && in_profile_at(events, n - 1) {
            let s = choose|s: int| #[trigger] opened_by(events, s, n - 1);
            law_open_profile(events, s, n - 1);
            assert forall|r: int| #[trigger] spans_profile(events, r, n - 1) implies r == s by {
                assert(opened_by(events, r, n - 1));
                if r < s {
                    assert(!opens_profile(events[s]));
                } else if s < r {
                    assert(!opens_profile(events[r]));
                }
            }
            if token_at(events, n - 1).len() > 0 {
                let new = profile(token_at(events, n - 1), name_at(events, n - 1));
                assert(all == before.push(new));
                assert(spans_profile(events, s, n - 1));
                let k = lemma_first_said(events, s, n - 1);
                if is_first_said(events, s, k, n - 1) {
                    assert(is_said(events, k));
                    assert(new.name == name_at(events, n - 1));
                }
                assert(is_profile_of(events, s, n - 1, new));
                let later_starts = starts.push(s);
                let later_ends = ends.push(n - 1);
                assert forall|a: int| 0 <= a < all.len() implies is_profile_of(
                    events,
                    later_starts[a],
                    later_ends[a],
                    #[trigger] all[a],
                ) by {
                    if a < before.len() {
                        assert(all[a] == before[a]);
                    }
                }
                assert forall|r: int, e: int|
                    0 <= e < n && #[trigger] spans_profile(
                        events,
                        r,
                        e,
                    ) implies later_ends.contains(e) by {
                    if e < n - 1 {
                        assert(ends.contains(e));
                        let a = choose|a: int| 0 <= a < ends.len() && ends[a] == e;
                        assert(later_ends[a] == e);
                    } else {
                        assert(later_ends[ends.len() as int] == e);
                    }
                }
                assert(are_profiles_in(events, n, later_starts, later_ends, all));
            } else {
                assert(are_profiles_in(events, n, starts, ends, all));
            }
        } else {
            assert(are_profiles_in(events, n, starts, ends, all));
        }
    }
}

/// A line holds the token that stands between the quotes behind its first `token="`, if it is not
/// empty.
pub proof fn law_line_token(a: Seq<char>, token: Seq<char>, b: Seq<char>)
    requires
        forall|j: int|
            0 <= j < a.len() ==> !#[trigger] text::occurs_at(
                a + "token=\""@ + token + seq!['"'] + b,
                "token=\""@,
                j,
            ),
        !token.contains('"'),
    ensures
        line_token(a + "token=\""@ + token + seq!['"'] + b) == (if token.len() > 0 {
            Some(token)
        } else {
            None
        }),
{
    let key = "token=\""@;
    let line = a + key + token + seq!['"'] + b;
    let i = a.len() as int;
    let start = i + key.len();
    assert(line.subrange(i, start) =~= key);
    assert(text::occurs_at(line, key, i));
    text::lemma_find(line, key, 0);
    assert(text::find(line, key, 0) == Some(i)) by {
        let found = text::find(line, key, 0)->0;
        assert(text::occurs_at(line, key, found));
    }
    let end = text::index_of(line, '"', start);
    text::lemma_index_of(line, '"', start);
    assert(line[start + token.len()] == '"');
    assert forall|j: int| start <= j < start + token.len() implies #[trigger] line[j] != '"' by {
        assert(line[j] == token[j - start]);
        assert(token.contains(token[j - start]));
    }
    assert(end == start + token.len());
    assert(line.subrange(start, end) =~= token);
}

/// A line without `token="`, or without a quote behind the first of them, holds no token.
pub proof fn law_line_without_token(a: Seq<char>, rest: Seq<char>)
    ensures
        !text::contains(a, "token=\""@) ==> line_token(a) is None,
        !rest.contains('"') && (forall|j: int|
            0 <= j < a.len() ==> !#[trigger] text::occurs_at(
                a + "token=\""@ + rest,
                "token=\""@,
                j,
            )) ==> line_token(a + "token=\""@ + rest) is None,
{
    let key = "token=\""@;
    text::lemma_find_contains(a, key);
    let line = a + key + rest;
    let i = a.len() as int;
    let start = i + key.len();
    assert(line.subrange(i, start) =~= key);
    assert(text::occurs_at(line, key, i));
    text::lemma_find(line, key, 0);
    if !rest.contains('"') && (forall|j: int|
        0 <= j < a.len() ==> !#[trigger] text::occurs_at(line, key, j)) {
        assert(text::find(line, key, 0) == Some(i)) by {
            let found = text::find(line, key, 0)->0;
            assert(text::occurs_at(line, key, found));
        }
        text::lemma_index_of(line, '"', start);
        let end = text::index_of(line, '"', start);
        if end < line.len() {
            assert(line[end] == rest[end - start]);
            assert(rest.contains(rest[end - start]));
        }
    }
}

/// Each line with a token gives one profile, named after the token, and any other line gives none;
/// what one part of the lines gives does not depend on the rest.
pub proof fn law_line_profiles(a: Seq<Seq<char>>, b: Seq<Seq<char>>, line: Seq<char>)
    ensures
        line_profiles(a + b) == line_profiles(a) + line_profiles(b),
        match line_token(line) {
            Some(token) => {
                let profiles = line_profiles(seq![line]);
                &&& profiles.len() == 1
                &&& profiles[0].token == token
                &&& profiles[0].name == "Profile_"@ + token
                &&& profiles[0].video_encoding == VideoEncodingView::H264
                &&& profiles[0].resolution.width == 1920
                &&& profiles[0].resolution.height == 1080
            },
            None => line_profiles(seq![line]).len() == 0,
        },
    decreases b.len(),
{
    let one = seq![line];
    assert(one.drop_last() =~= Seq::empty());
    assert(one.last() == line);
    assert(line_profiles(one.drop_last()).len() == 0);
    if b.len() > 0 {
        law_line_profiles(a, b.drop_last(), line);
        assert((a + b).drop_last() =~= a + b.drop_last());
        assert((a + b).last() == b.last());
    } else {
        assert(a + b =~= a);
    }
    assert(line_profiles(a + b) =~= line_profiles(a) + line_profiles(b));
}

/// The profiles of a response are those that it lists; if it lists none, those of the tokens in its
/// lines; if there is none of these either, the response is refused.
pub proof fn law_profiles_response(xml: Seq<char>, events: Seq<XmlEventView>)
    ensures
        (exists|s: int, e: int|
            0 <= e < events.len() && #[trigger] spans_profile(events, s, e)) ==> {
            &&& profiles_of(xml, events) is Ok
            &&& exists|starts: Seq<int>, ends: Seq<int>| #[trigger]
                are_profiles_in(
                    events,
                    events.len() as int,
                    starts,
                    ends,
                    profiles_of(xml, events)->Ok_0,
                )
        },
        (forall|s: int, e: int| 0 <= e < events.len() ==> !#[trigger] spans_profile(events, s, e))
            ==> profiles_of(xml, events) == (if line_profiles(text::lines(xml, 0)).len() > 0 {
            Ok::<Seq<ProfileInfoView>, InterrogationErrorView>(
                line_profiles(text::lines(xml, 0)),
            )
        } else {
            Err(
                InterrogationErrorView::InvalidResponse(
                    "No profiles found in GetProfiles response"@,
                ),
            )
        }),
{
    let n = events.len() as int;
    let listed = profiles_at(events, n);
    law_profiles(events, n);
    let (starts, ends) = choose|starts: Seq<int>, ends: Seq<int>| #[trigger]
        are_profiles_in(events, n, starts, ends, listed);
    if exists|s: int, e: int| 0 <= e < events.len() && #[trigger] spans_profile(events, s, e) {
        let (s, e) = choose|s: int, e: int|
            0 <= e < events.len() && #[trigger] spans_profile(events, s, e);
        assert(ends.contains(e));
        assert(profiles_of(xml, events) == Ok::<Seq<ProfileInfoView>, InterrogationErrorView>(
            listed,
        ));
        assert(are_profiles_in(events, n, starts, ends, profiles_of(xml, events)->Ok_0));
    } else if listed.len() > 0 {
        assert(is_profile_of(events, starts[0], ends[0], listed[0]));
        assert(spans_profile(events, starts[0], ends[0]));
    }
}

// ---------------------------------------------------------------------------------------------
// Reading the response
// ---------------------------------------------------------------------------------------------

/// Whether `name` is that of a profile.
fn is_profile(name: &str) -> (r: bool)
    ensures
        r == names_profile(name@),
{
    text::same(name, "Profiles") || text::same(name, "trt:Profiles")
}

/// The token among the attributes of a profile.
fn read_token(attributes: &Vec<XmlAttribute>) -> (r: String)
    ensures
        r@ == token_of(attributes@.map_values(|a: XmlAttribute| a@)),
{
    let ghost views = attributes@.map_values(|a: XmlAttribute| a@);
    let mut i: usize = attributes.len();
    assert(views.take(views.len() as int) =~= views);
    while i > 0
        invariant
            i <= attributes.len(),
            views == attributes@.map_values(|a: XmlAttribute| a@),
            token_of(views) == token_of(views.take(i as int)),
        decreases i,
    {
        assert(views.take(i as int).last() == attributes@[i - 1]@);
        assert(views.take(i as int).drop_last() =~= views.take(i - 1));
        let attribute = &attributes[i - 1];
        if text::same(&attribute.key, "token") {
            if let Some(value) = &attribute.value {
                return value.clone();
            }
        }
        i -= 1;
    }
    assert(views.take(0).len() == 0);
    String::new()
}

/// A profile of which the token and the name are known.
fn new_profile(token: String, name: String) -> (r: ProfileInfo)
    ensures
        r@ == profile(token@, name@),
{
    let name = if text::is_empty(&name) {
        "Profile_".to_owned().concat(&token)
    } else {
        name
    };
    ProfileInfo {
        token,
        name,
        video_encoding: VideoEncoding::H264,
        resolution: Resolution::new(1920, 1080),
    }
}

/// Reads the profiles that the events of a response list.
fn listed_profiles(events: &Vec<XmlEvent>) -> (r: Vec<ProfileInfo>)
    ensures
        profile_views(r@) == profiles_at(
            xml::event_views(events@),
            xml::event_views(events@).len() as int,
        ),
{
    let ghost views = xml::event_views(events@);
    let mut profiles: Vec<ProfileInfo> = Vec::new();
    let mut in_profile = false;
    let mut token = String::new();
    let mut name = String::new();
    let mut i: usize = 0;
    assert(profile_views(profiles@) =~= profiles_at(views, 0));
    while i < events.len()
        invariant
            views == xml::event_views(events@),
            i <= events.len(),
            in_profile == in_profile_at(views, i as int),
            token@ == token_at(views, i as int),
            name@ == name_at(views, i as int),
            profile_views(profiles@) == profiles_at(views, i as int),
        decreases events.len() - i,
    {
        let ghost n = i as int;
        assert(views[n] == events@[n]@);
        match &events[i] {
            XmlEvent::Start { name: tag, attributes } => {
                if is_profile(tag) {
                    in_profile = true;
                    token = read_token(attributes);
                    name = String::new();
                }
            },
            XmlEvent::Text(Ok(t)) => {
                if in_profile && text::is_empty(&name) {
                    name = text::trimmed(t);
                }
            },
            XmlEvent::End(tag) => {
                if is_profile(tag) {
                    if in_profile && !text::is_empty(&token) {
                        let found = new_profile(token.clone(), name.clone());
                        let ghost before = profile_views(profiles@);
                        profiles.push(found);
                        assert(profile_views(profiles@) =~= before.push(found@));
                    }
                    in_profile = false;
                }
            },
            _ => {},
        }
        i += 1;
    }
    profiles
}

/// What stands between the quotes of the first `token="` of a line.
fn token_from_line(line: &str) -> (r: Option<String>)
    ensures
        xml::text_view(r) == line_token(line@),
{
    let chars = text::chars_of(line);
    let key = text::chars_of("token=\"");
    proof {
        text::lemma_find(line@, "token=\""@, 0);
    }
    match text::find_from(&chars, &key, 0) {
        None => None,
        Some(i) => {
            let start = i + key.len();
            let end = text::index_from(&chars, '"', start);
            if start < end && end < chars.len() {
                Some(text::text_of(&chars, start, end))
            } else {
                None
            }
        },
    }
}

/// A profile for each line of a response that holds a token.
fn guessed_profiles(xml: &str) -> (r: Vec<ProfileInfo>)
    ensures
        profile_views(r@) == line_profiles(text::lines(xml@, 0)),
{
    let lines = text::split_lines(xml);
    let ghost views = text::texts(lines@);
    let mut profiles: Vec<ProfileInfo> = Vec::new();
    let mut k: usize = 0;
    assert(profile_views(profiles@) =~= line_profiles(views.take(0)));
    while k < lines.len()
        invariant
            k <= lines.len(),
            views == text::texts(lines@),
            profile_views(profiles@) == line_profiles(views.take(k as int)),
        decreases lines.len() - k,
    {
        assert(views.take(k + 1).last() == lines@[k as int]@);
        assert(views.take(k + 1).drop_last() =~= views.take(k as int));
        if let Some(token) = token_from_line(&lines[k]) {
            let found = new_profile(token, String::new());
            let ghost before = profile_views(profiles@);
            profiles.push(found);
            assert(profile_views(profiles@) =~= before.push(found@));
        }
        k += 1;
    }
    assert(views.take(views.len() as int) =~= views);
    profiles
}

/// The profiles of a GetProfiles response with these events.
pub fn profiles_from_events(xml: &str, events: &Vec<XmlEvent>) -> (r: Result<
    Vec<ProfileInfo>,
    InterrogationError,
>)
    ensures
        profiles_view(r) == profiles_of(xml@, xml::event_views(events@)),
{
    let listed = listed_profiles(events);
    if listed.len() > 0 {
        return Ok(listed);
    }
    let guessed = guessed_profiles(xml);
    if guessed.len() > 0 {
        return Ok(guessed);
    }
    Err(
        InterrogationError::InvalidResponse("No profiles found in GetProfiles response".to_owned()),
    )
}

/// Parse GetProfiles response
pub fn parse_profiles_response(xml: &str) -> (r: Result<Vec<ProfileInfo>, InterrogationError>)
    ensures
        profiles_view(r) == profiles_of(xml@, xml::borrowed_events(xml@)),
{
    let events = xml::read_borrowed(xml);
    profiles_from_events(xml, &events)
}

// ---------------------------------------------------------------------------------------------
// GetStreamUri
// ---------------------------------------------------------------------------------------------

/// The stream type that a profile name in lower case tells.
pub open spec fn stream_type_of(lower: Seq<char>) -> StreamType {
    if text::contains(lower, "main"@) || text::contains(lower, "primary"@) {
        StreamType::Primary
    } else if text::contains(lower, "sub"@) || text::contains(lower, "secondary"@) {
        StreamType::Secondary
    } else {
        StreamType::Unknown
    }
}

/// The stream of a profile at an address.
pub open spec fn stream(
    profile: ProfileInfoView,
    stream_type: StreamType,
    rtsp_url: Seq<char>,
) -> MediaStreamView {
    MediaStreamView {
        profile_token: profile.token,
        name: profile.name,
        rtsp_url,
        video_encoding: profile.video_encoding,
        resolution: profile.resolution,
        framerate: Some(30u32),
        bitrate: None,
        stream_type,
        audio_encoding: None,
    }
}

/// The stream that a GetStreamUri response with these events tells of, for a profile whose name
/// in lower case is `lower`: the last RTSP address in a Uri element.
pub open spec fn stream_of(
    events: Seq<XmlEventView>,
    profile: ProfileInfoView,
    lower: Seq<char>,
) -> Result<MediaStreamView, InterrogationErrorView> {
    let n = events.len() as int;
    if elements::failure(events, n) is Some {
        Err(InterrogationErrorView::XmlParsing(elements::failure(events, n)->0))
    } else {
        match elements::last_text(events, n, "Uri"@, "rtsp://"@) {
            Some(url) => Ok(stream(profile, stream_type_of(lower), url)),
            None => Err(
                InterrogationErrorView::InvalidResponse(
                    "No RTSP URL found in GetStreamUri response"@,
                ),
            ),
        }
    }
}

/// The last text that starts with a prefix does.
proof fn lemma_last_text_prefix(
    events: Seq<XmlEventView>,
    n: int,
    local: Seq<char>,
    prefix: Seq<char>,
)
    ensures
        elements::last_text(events, n, local, prefix) matches Some(t) ==> prefix.is_prefix_of(t),
    decreases n,
{
    if n > 0 {
        lemma_last_text_prefix(events, n - 1, local, prefix);
    }
}

/// A stream that is found has an RTSP address, and the token and the name of its profile.
pub proof fn law_stream_address(
    events: Seq<XmlEventView>,
    profile: ProfileInfoView,
    lower: Seq<char>,
)
    ensures
        stream_of(events, profile, lower) matches Ok(stream) ==> {
            &&& "rtsp://"@.is_prefix_of(stream.rtsp_url)
            &&& stream.profile_token == profile.token
            &&& stream.name == profile.name
        },
{
    lemma_last_text_prefix(events, events.len() as int, "Uri"@, "rtsp://"@);
}

/// The address of a stream is, character for character, the last text of a Uri element that starts
/// with `rtsp://`. Such a text is all that a response needs if it can be read throughout.
pub proof fn law_stream_is_last_uri(
    events: Seq<XmlEventView>,
    profile: ProfileInfoView,
    lower: Seq<char>,
)
    ensures
        stream_of(events, profile, lower) matches Ok(stream) ==> elements::is_last_text(
            events,
            events.len() as int,
            "Uri"@,
            "rtsp://"@,
            stream.rtsp_url,
        ),
        (exists|k: int| 0 <= k < events.len() && elements::unreadable(#[trigger] events[k])) ==> {
            &&& stream_of(events, profile, lower) is Err
            &&& stream_of(events, profile, lower)->Err_0 is XmlParsing
            &&& elements::is_first_failure(
                events,
                events.len() as int,
                stream_of(events, profile, lower)->Err_0->XmlParsing_0,
            )
        },
        (forall|k: int| 0 <= k < events.len() ==> !elements::unreadable(#[trigger] events[k]))
            ==> if elements::has_no_text(events, events.len() as int, "Uri"@, "rtsp://"@) {
            stream_of(events, profile, lower) == Err::<MediaStreamView, InterrogationErrorView>(
                InterrogationErrorView::InvalidResponse(
                    "No RTSP URL found in GetStreamUri response"@,
                ),
            )
        } else {
            stream_of(events, profile, lower) is Ok
        },
{
    let n = events.len() as int;
    reveal_strlit("Uri");
    elements::law_failure(events, n);
    elements::law_last_text(events, n, "Uri"@, "rtsp://"@);
    if let Some(t) = elements::last_text(events, n, "Uri"@, "rtsp://"@) {
        let i = choose|i: int|
            0 <= i < n && #[trigger] elements::is_text_of(events, i, "Uri"@, t)
                && "rtsp://"@.is_prefix_of(t) && forall|k: int, u: Seq<char>|
                i < k < n && #[trigger] elements::is_text_of(events, k, "Uri"@, u)
                    ==> !"rtsp://"@.is_prefix_of(u);
        assert(elements::is_text_of(events, i, "Uri"@, t));
    }
}

/// A stream belongs to its profile: what is known of the profile is kept, and the name alone tells
/// the type.
pub proof fn law_stream_keeps_profile(
    events: Seq<XmlEventView>,
    profile: ProfileInfoView,
    lower: Seq<char>,
)
    ensures
        stream_of(events, profile, lower) matches Ok(stream) ==> {
            let primary = text::contains(lower, "main"@) || text::contains(lower, "primary"@);
            let secondary = text::contains(lower, "sub"@) || text::contains(lower, "secondary"@);
            &&& stream.profile_token == profile.token
            &&& stream.name == profile.name
            &&& stream.video_encoding == profile.video_encoding
            &&& stream.resolution == profile.resolution
            &&& stream.framerate == Some(30u32)
            &&& stream.bitrate is None
            &&& stream.audio_encoding is None
            &&& stream.stream_type == StreamType::Primary <==> primary
            &&& stream.stream_type == StreamType::Secondary <==> secondary && !primary
            &&& stream.stream_type == StreamType::Unknown <==> !secondary && !primary
        },
{
}

/// Devices may use any namespace prefixes: two GetStreamUri responses whose names agree behind the
/// last colon say the same.
pub proof fn law_prefixes_do_not_matter(
    a: Seq<XmlEventView>,
    b: Seq<XmlEventView>,
    profile: ProfileInfoView,
    lower: Seq<char>,
)
    requires
        elements::all_same_but_prefix(a, b),
    ensures
        stream_of(a, profile, lower) == stream_of(b, profile, lower),
{
    elements::law_prefixes_do_not_matter(a, b, a.len() as int, "Uri"@, "rtsp://"@);
}

/// The view of a stream, or of why there is none.
pub open spec fn stream_view(r: Result<MediaStream, InterrogationError>) -> Result<
    MediaStreamView,
    InterrogationErrorView,
> {
    match r {
        Ok(stream) => Ok(stream@),
        Err(e) => Err(e@),
    }
}

/// The stream type that a profile name in lower case tells.
pub fn classify_stream(lower: &str) -> (r: StreamType)
    ensures
        r == stream_type_of(lower@),
{
    if text::has(lower, "main") || text::has(lower, "primary") {
        StreamType::Primary
    } else if text::has(lower, "sub") || text::has(lower, "secondary") {
        StreamType::Secondary
    } else {
        StreamType::Unknown
    }
}

/// The stream that a GetStreamUri response with these events tells of, for a profile whose name
/// in lower case is `lower`.
pub fn stream_from_events(events: &Vec<XmlEvent>, profile: &ProfileInfo, lower: &str) -> (r: Result<
    MediaStream,
    InterrogationError,
>)
    ensures
        stream_view(r) == stream_of(xml::event_views(events@), profile@, lower@),
{
    let ghost views = xml::event_views(events@);
    let mut url: Option<String> = None;
    let mut element = String::new();
    let mut i: usize = 0;
    while i < events.len()
        invariant
            views == xml::event_views(events@),
            i <= events.len(),
            element@ == elements::element_at(views, i as int),
            elements::failure(views, i as int) is None,
            xml::text_view(url) == elements::last_text(views, i as int, "Uri"@, "rtsp://"@),
        decreases events.len() - i,
    {
        let ghost n = i as int;
        assert(views[n] == events@[n]@);
        match &events[i] {
            XmlEvent::Start { name, attributes: _ } => {
                element = name.clone();
            },
            XmlEvent::Text(Ok(t)) => {
                if elements::local_name_is(&element, "Uri") && text::starts_with(t, "rtsp://") {
                    url = Some(t.clone());
                }
            },
            XmlEvent::Text(Err(m)) => {
                proof {
                    elements::lemma_failure_lasts(views, n + 1, views.len() as int);
                }
                return Err(
                    InterrogationError::XmlParsing("Text decode error: ".to_owned().concat(m)),
                );
            },
            XmlEvent::End(_) => {
                element = String::new();
            },
            XmlEvent::Failed(m) => {
                proof {
                    elements::lemma_failure_lasts(views, n + 1, views.len() as int);
                }
                return Err(
                    InterrogationError::XmlParsing("XML parsing error: ".to_owned().concat(m)),
                );
            },
            XmlEvent::Other => {},
        }
        i += 1;
    }
    match url {
        Some(rtsp_url) => Ok(
            MediaStream {
                profile_token: profile.token.clone(),
                name: profile.name.clone(),
                rtsp_url,
                video_encoding: profile.video_encoding.clone(),
                resolution: profile.resolution,
                framerate: Some(30),
                bitrate: None,
                stream_type: classify_stream(lower),
                audio_encoding: None,
            },
        ),
        None => Err(
            InterrogationError::InvalidResponse(
                "No RTSP URL found in GetStreamUri response".to_owned(),
            ),
        ),
    }
}

/// Parse GetStreamUri response
pub fn parse_stream_uri_response(xml: &str, profile: &ProfileInfo) -> (r: Result<
    MediaStream,
    InterrogationError,
>)
    ensures
        stream_view(r) == stream_of(
            xml::buffered_events(xml@),
            profile@,
            text::lowercased(profile@.name),
        ),
        is_ascii_chars(profile@.name) ==> stream_view(r) == stream_of(
            xml::buffered_events(xml@),
            profile@,
            text::ascii_lowercase(profile@.name),
        ),
{
    let events = xml::read_buffered(xml);
    let lower = text::to_lowercase(&profile.name);
    stream_from_events(&events, profile, &lower)
}

} // verus!
