//! What the media player is playing.
use vstd::prelude::*;
use vstd::string::StringExecFns;
use crate::status::string_views;

verus! {

/// The artists and title of the current track, greyed out unless it is
/// playing, in brackets.
#[derive(Debug, Clone, Copy, PartialEq, Eq)]
pub struct Playing;

/// What the first media player reports about its track.
#[derive(Debug)]
pub struct PlayerInfo {
    pub artists: Option<Vec<String>>,
    pub title: Option<String>,
    /// The playback status is `Playing` (rather than paused or stopped).
    pub playing: bool,
}

/// The items with `sep` between each two of them.
pub open spec fn sep_joined(items: Seq<Seq<char>>, sep: Seq<char>) -> Seq<char>
    decreases items.len(),
{
    if items.len() == 0 {
        seq![]
    } else if items.len() == 1 {
        items[0]
    } else {
        sep_joined(items.drop_last(), sep) + sep + items.last()
    }
}

/// The artists joined by commas; nothing when the player names none.
pub open spec fn artists_text(artists: Option<Vec<String>>) -> Seq<char> {
    match artists {
        Some(v) => sep_joined(string_views(v@), ", "@),
        None => seq![],
    }
}

/// The title; nothing when the player names none.
pub open spec fn title_text(title: Option<String>) -> Seq<char> {
    match title {
        Some(t) => t@,
        None => seq![],
    }
}

/// What is shown for the player: `[]` without a player, otherwise the
/// artists and the title between a dash, in brackets, in grey unless the
/// track is playing; the closing `^d^` restores the default colour.
pub open spec fn playing_text(info: Option<PlayerInfo>) -> Seq<char> {
    match info {
        None => "[]"@,
        Some(i) => {
            let grey = if i.playing {
                seq![]
            } else {
                "^c#666666^"@
            };
            "["@ + grey + artists_text(i.artists) + " - "@ + title_text(i.title) + "^d^]"@
        },
    }
}

/// The title is always shown, playing or not: the text ends with ` - `, the
/// whole title and the closing `^d^]`; without a title the dash is followed
/// directly by `^d^]`.
pub proof fn law_title_follows_dash(artists: Option<Vec<String>>, title: Option<String>, playing: bool)
    ensures
        ({
            let text = playing_text(Some(PlayerInfo { artists, title, playing }));
            let tail = match title {
                Some(t) => " - "@ + t@ + "^d^]"@,
                None => " - ^d^]"@,
            };
            &&& text.len() >= tail.len()
            &&& text.skip(text.len() - tail.len()) == tail
        }),
{
    reveal_strlit(" - ");
    reveal_strlit("^d^]");
    reveal_strlit(" - ^d^]");
    let i = PlayerInfo { artists, title, playing };
    let grey = if playing {
        Seq::<char>::empty()
    } else {
        "^c#666666^"@
    };
    let head = "["@ + grey + artists_text(artists);
    let tail = match title {
        Some(t) => " - "@ + t@ + "^d^]"@,
        None => " - ^d^]"@,
    };
    let text = playing_text(Some(i));
    assert(text =~= head + tail);
    assert(text.skip(head.len() as int) =~= tail);
}

/// A paused track shows the same text as a playing one, with the grey
/// colour code right after the opening bracket; without a player the text
/// is `[]`.
pub proof fn law_paused_only_adds_grey(artists: Option<Vec<String>>, title: Option<String>)
    ensures
        ({
            let on = playing_text(Some(PlayerInfo { artists, title, playing: true }));
            let off = playing_text(Some(PlayerInfo { artists, title, playing: false }));
            &&& on.len() >= 1
            &&& on[0] == '['
            &&& off == seq!['['] + "^c#666666^"@ + on.skip(1)
        }),
        playing_text(None) == "[]"@,
{
    reveal_strlit("[");
    let on = playing_text(Some(PlayerInfo { artists, title, playing: true }));
    let off = playing_text(Some(PlayerInfo { artists, title, playing: false }));
    let rest = artists_text(artists) + " - "@ + title_text(title) + "^d^]"@;
    assert(on =~= "["@ + rest);
    assert(on.skip(1) =~= rest);
    assert(off =~= seq!['['] + "^c#666666^"@ + rest);
}

/// Appends the items with `sep` between each two of them.
fn push_joined(buf: &mut String, items: &Vec<String>, sep: &str)
    ensures
        final(buf)@ == old(buf)@ + sep_joined(string_views(items@), sep@),
{
    let ghost views = string_views(items@);
    let mut i: usize = 0;
    while i < items.len()
        invariant
            i <= items@.len(),
            views == string_views(items@),
            buf@ == old(buf)@ + sep_joined(views.take(i as int), sep@),
        decreases items@.len() - i,
    {
        if i > 0 {
            buf.append(sep);
        }
        buf.append(items[i].as_str());
        assert(views.take(i + 1).drop_last() == views.take(i as int));
        assert(views.take(i + 1).last() == items@[i as int]@);
        proof {
            if i == 0 {
                assert(views.take(1) =~= seq![items@[0]@]);
                assert(sep_joined(views.take(0), sep@) =~= Seq::<char>::empty());
            }
        }
        i = i + 1;
    }
    assert(views.take(i as int) == views);
}

impl Playing {
    /// Appends what is shown for the player.
    pub fn render(&self, info: &Option<PlayerInfo>, buf: &mut String)
        ensures
            final(buf)@ == old(buf)@ + playing_text(*info),
    {
        match info {
            None => {
                buf.append("[]");
            },
            Some(i) => {
                buf.append("[");
                if !i.playing {
                    buf.append("^c#666666^");
                }
                match &i.artists {
                    Some(a) => push_joined(buf, a, ", "),
                    None => {},
                }
                buf.append(" - ");
                match &i.title {
                    Some(t) => buf.append(t.as_str()),
                    None => {},
                }
                buf.append("^d^]");
                let ghost grey = if i.playing {
                    Seq::<char>::empty()
                } else {
                    "^c#666666^"@
                };
                assert(buf@ =~= old(buf)@ + ("["@ + grey + artists_text(i.artists) + " - "@
                    + title_text(i.title) + "^d^]"@));
            },
        }
    }
}

} // verus!
