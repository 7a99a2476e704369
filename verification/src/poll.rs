//! The decisions of the presence-polling loop: which track counts as now
//! playing, what the presence publisher is shown, and how the loop reacts
//! to failures. The loop itself — the timer, the fetch and the publishing
//! — lives with the caller, which feeds outcomes in and performs what
//! comes back. The loop never decides to terminate: every failure is
//! followed by the next interval.

use vstd::prelude::*;
use vstd::string::StringExecFns;
use crate::api::Response;
use crate::error::{Error, LastFMError};
use crate::responses::{
    GetRecentTracksResponse, GetRecentTracksResponseVal, ImageVal, Track, TrackVal,
};
use crate::text::str_eq;

verus! {

/// Which track of a listing counts as now playing: the first one, and
/// only when it carries the explicit now-playing marker set to true.
pub open spec fn now_playing_spec(v: GetRecentTracksResponseVal) -> Option<TrackVal> {
    match v.recenttracks {
        Option::None => Option::None,
        Option::Some(rt) => {
            if rt.track.len() == 0 {
                Option::None
            } else {
                let t = rt.track[0];
                match t.attr {
                    Option::Some(a) => if a.nowplaying == Some(true) {
                        Option::Some(t)
                    } else {
                        Option::None
                    },
                    Option::None => Option::None,
                }
            }
        },
    }
}

/// The track now playing, if the listing marks one: its first track,
/// only when that track's attribute block says the play is live. A first
/// track without the marker is historical and counts as nothing playing.
pub fn now_playing(resp: &GetRecentTracksResponse) -> (r: Option<&Track>)
    ensures
        match r {
            Option::Some(t) => now_playing_spec(resp@) == Some((*t)@),
            Option::None => now_playing_spec(resp@) is None,
        },
{
    match &resp.recenttracks {
        None => None,
        Some(rt) => {
            if rt.track.len() == 0 {
                proof {
                    assert(crate::responses::tracks_view(rt.track@).len() == 0);
                }
                return None;
            }
            let t = &rt.track[0];
            proof {
                assert(crate::responses::tracks_view(rt.track@)[0] == rt.track@[0]@);
            }
            match &t.attr {
                Some(a) => match a.nowplaying {
                    Some(true) => Some(t),
                    _ => None,
                },
                None => None,
            }
        },
    }
}

/// What the presence publisher is told.
pub enum PresenceUpdate {
    /// Nothing is playing: clear the presence.
    Clear,
    /// Show the playing track.
    Show {
        /// The track's title.
        details: String,
        /// The artist and album, for hovering over the cover.
        hover_text: String,
        /// The medium-size cover image, when the track has one.
        large_image: Option<String>,
        /// The track's page, for the link button.
        button_url: String,
        /// The line the caller logs: artist and title.
        description: String,
    },
}

/// The mathematical value of a presence update.
pub enum PresenceUpdateVal {
    Clear,
    Show {
        details: Seq<char>,
        hover_text: Seq<char>,
        large_image: Option<Seq<char>>,
        button_url: Seq<char>,
        description: Seq<char>,
    },
}

impl View for PresenceUpdate {
    type V = PresenceUpdateVal;

    open spec fn view(&self) -> PresenceUpdateVal {
        match self {
            PresenceUpdate::Clear => PresenceUpdateVal::Clear,
            PresenceUpdate::Show { details, hover_text, large_image, button_url, description } =>
                PresenceUpdateVal::Show {
                details: details@,
                hover_text: hover_text@,
                large_image: match large_image {
                    Option::None => Option::None,
                    Option::Some(s) => Option::Some(s@),
                },
                button_url: button_url@,
                description: description@,
            },
        }
    }
}

/// The text of the first image of medium size, if any.
pub open spec fn medium_image_spec(images: Seq<ImageVal>) -> Option<Seq<char>>
    decreases images.len(),
{
    if images.len() == 0 {
        Option::None
    } else if images[0].size == "medium"@ {
        Option::Some(images[0].text)
    } else {
        medium_image_spec(images.drop_first())
    }
}

/// The artist name shown for a track.
pub open spec fn artist_name_spec(t: TrackVal) -> Seq<char> {
    match t.artist {
        Option::Some(a) => a.text,
        Option::None => "Unknown Artist"@,
    }
}

/// The album name shown for a track.
pub open spec fn album_name_spec(t: TrackVal) -> Seq<char> {
    match t.album {
        Option::Some(a) => a.text,
        Option::None => "Unknown Album"@,
    }
}

/// The presence shown for a possibly-playing track: a clear when nothing
/// plays, else the track's title, its artist and album, its medium cover
/// when it has one, and its page.
pub open spec fn presence_spec(t: Option<TrackVal>) -> PresenceUpdateVal {
    match t {
        Option::None => PresenceUpdateVal::Clear,
        Option::Some(t) => PresenceUpdateVal::Show {
            details: t.name,
            hover_text: artist_name_spec(t) + " - "@ + album_name_spec(t),
            large_image: medium_image_spec(t.image),
            button_url: t.url,
            description: artist_name_spec(t) + " - "@ + t.name,
        },
    }
}

/// The text of the first medium-size image of a track.
fn medium_image(images: &Vec<crate::responses::Image>) -> (r: Option<String>)
    ensures
        match r {
            Option::Some(s) => medium_image_spec(crate::responses::images_view(images@)) == Some(
                s@,
            ),
            Option::None => medium_image_spec(crate::responses::images_view(images@)) is None,
        },
{
    let ghost views = crate::responses::images_view(images@);
    let mut i: usize = 0;
    proof {
        assert(views.skip(0) =~= views);
    }
    while i < images.len()
        invariant
            i <= images.len(),
            views == crate::responses::images_view(images@),
            medium_image_spec(views) == medium_image_spec(views.skip(i as int)),
        decreases images.len() - i,
    {
        proof {
            assert(views.skip(i as int)[0] == views[i as int]);
            assert(views[i as int] == images@[i as int]@);
            assert(views.skip(i as int).drop_first() =~= views.skip(i + 1));
        }
        if str_eq(images[i].size.as_str(), "medium") {
            return Some(images[i].text.clone());
        }
        i += 1;
    }
    proof {
        assert(views.skip(i as int).len() == 0);
    }
    None
}

/// The presence update for a possibly-playing track.
pub fn presence_of(track: Option<&Track>) -> (r: PresenceUpdate)
    ensures
        match track {
            Option::None => r@ == PresenceUpdateVal::Clear,
            Option::Some(t) => r@ == presence_spec(Some((*t)@)),
        },
{
    let t = match track {
        None => {
            return PresenceUpdate::Clear;
        },
        Some(t) => t,
    };
    let artist = match &t.artist {
        Some(a) => a.text.clone(),
        None => String::from_str("Unknown Artist"),
    };
    let album = match &t.album {
        Some(a) => a.text.clone(),
        None => String::from_str("Unknown Album"),
    };
    let mut hover_text = artist.clone();
    hover_text.append(" - ");
    hover_text.append(album.as_str());
    let mut description = artist.clone();
    description.append(" - ");
    description.append(t.name.as_str());
    let r = PresenceUpdate::Show {
        details: t.name.clone(),
        hover_text,
        large_image: medium_image(&t.image),
        button_url: t.url.clone(),
        description,
    };
    proof {
        assert(artist@ == artist_name_spec((*t)@));
        assert(album@ == album_name_spec((*t)@));
    }
    r
}

/// What one polling round does, once the fetch has come back.
pub enum PollStep {
    /// Publish this update (or clear), then sleep out the interval.
    Publish(PresenceUpdate),
    /// The fetch failed: log the failure, skip publishing, and sleep out
    /// the interval. The loop goes on.
    Log(Error),
}

/// Decides one polling round from the fetched listing: a fetch-layer
/// failure or a reported error is logged and the loop goes on; a good
/// listing is turned into the presence to publish.
pub fn poll_step(fetch: Result<Response<GetRecentTracksResponse>, String>) -> (r: PollStep)
    ensures
        fetch matches Err(t) ==> (r matches PollStep::Log(e) && e == Error::Transport(t)),
        fetch matches Ok(Response::LastFMError(e)) ==> (r matches PollStep::Log(le) && le
            == Error::LastFM(e)),
        fetch matches Ok(Response::Valid(resp)) ==> (r matches PollStep::Publish(p) && p@
            == presence_spec(now_playing_spec(resp@))),
{
    match fetch {
        Err(t) => PollStep::Log(Error::Transport(t)),
        Ok(Response::LastFMError(e)) => PollStep::Log(Error::LastFM(e)),
        Ok(Response::Valid(resp)) => {
            let track = now_playing(&resp);
            PollStep::Publish(presence_of(track))
        },
    }
}

/// What the loop does after telling the publisher.
#[derive(Debug, PartialEq, Eq, Structural)]
pub enum PublishFollowup {
    /// The publish went through: sleep out the interval.
    Continue,
    /// The publish failed: reconnect the publisher, then sleep out the
    /// interval. The loop still goes on.
    ReconnectAndContinue,
}

/// Decides how the loop follows a publish: a failure reconnects the
/// publisher and the loop proceeds to the next interval either way.
pub fn publish_followup(publish_failed: bool) -> (r: PublishFollowup)
    ensures
        r == if publish_failed {
            PublishFollowup::ReconnectAndContinue
        } else {
            PublishFollowup::Continue
        },
{
    if publish_failed {
        PublishFollowup::ReconnectAndContinue
    } else {
        PublishFollowup::Continue
    }
}

} // verus!
