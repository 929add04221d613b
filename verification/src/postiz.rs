//! Publishing finished clips to Postiz channels.

use vstd::prelude::*;
use crate::paths::{set_value, setting_of};
use crate::sidecar::{result_texts, tail, tail_of, Exit};
use crate::text::{is_blank, opt_str, opt_text, put, texts};

verus! {

/// A channel that is connected in Postiz.
#[derive(Debug)]
pub struct Channel {
    pub id: String,
    pub name: Option<String>,
    /// Provider slug, such as `instagram-standalone`, `tiktok` or `x`.
    pub identifier: Option<String>,
    pub profile: Option<String>,
    pub disabled: bool,
}

/// What a [`Channel`] says.
pub struct ChannelView {
    pub id: Seq<char>,
    pub name: Option<Seq<char>>,
    pub identifier: Option<Seq<char>>,
    pub profile: Option<Seq<char>>,
    pub disabled: bool,
}

impl View for Channel {
    type V = ChannelView;

    open spec fn view(&self) -> ChannelView {
        ChannelView {
            id: self.id@,
            name: opt_text(self.name),
            identifier: opt_text(self.identifier),
            profile: opt_text(self.profile),
            disabled: self.disabled,
        }
    }
}

/// The views of a list of channels.
pub open spec fn channel_views(v: Seq<Channel>) -> Seq<ChannelView> {
    v.map_values(|c: Channel| c@)
}

/// The channels that are not disabled, in order.
pub open spec fn enabled(channels: Seq<ChannelView>) -> Seq<ChannelView>
    decreases channels.len(),
{
    if channels.len() == 0 {
        Seq::empty()
    } else if channels.last().disabled {
        enabled(channels.drop_last())
    } else {
        enabled(channels.drop_last()).push(channels.last())
    }
}

/// Channels connected in Postiz, minus any the user has disabled.
pub fn channels(parsed: Vec<Channel>) -> (res: Vec<Channel>)
    ensures
        channel_views(res@) == enabled(channel_views(parsed@)),
{
    let ghost all = channel_views(parsed@);
    let mut res: Vec<Channel> = Vec::new();
    assert(all.take(0) =~= Seq::<ChannelView>::empty());
    assert(channel_views(res@) =~= Seq::<ChannelView>::empty());
    for c in it: parsed
        invariant
            all == channel_views(it.seq()),
            channel_views(res@) == enabled(all.take(it.index())),
    {
        let ghost n = it.index();
        let ghost before = channel_views(res@);
        assert(all.take(n + 1).drop_last() =~= all.take(n));
        assert(all.take(n + 1).last() == c@);
        if !c.disabled {
            res.push(c);
            assert(channel_views(res@) =~= before.push(c@));
        }
    }
    assert(all.take(all.len() as int) =~= all);
    res
}

/// Whether a key for Postiz is set.
pub fn configured(api_key: Option<&str>) -> (res: bool)
    ensures
        res == (set_value(opt_str(api_key)) is Some),
{
    setting_of(api_key).is_some()
}

/// The interpreter to run Postiz requests with, or why none can be made.
pub open spec fn runner(api_key: Option<Seq<char>>, python: Option<Seq<char>>) -> Result<
    Seq<char>,
    Seq<char>,
> {
    if set_value(api_key) is None {
        Err("POSTIZ_API_KEY is not set (Postiz: Settings > Developers)"@)
    } else {
        match python {
            Some(p) => Ok(p),
            None => Err("no Python available"@),
        }
    }
}

/// Chooses the interpreter to run Postiz requests with.
pub fn runner_for(api_key: Option<&str>, python: Option<&str>) -> (res: Result<String, String>)
    ensures
        result_texts(res) == runner(opt_str(api_key), opt_str(python)),
{
    if !configured(api_key) {
        return Err("POSTIZ_API_KEY is not set (Postiz: Settings > Developers)".to_owned());
    }
    match python {
        Some(p) => Ok(p.to_owned()),
        None => Err("no Python available".to_owned()),
    }
}

/// What comes of a Postiz request: its output, or the last lines it said.
pub open spec fn request_outcome(success: bool, stdout: Seq<char>, stderr: Seq<char>) -> Result<
    Seq<char>,
    Seq<char>,
> {
    if success {
        Ok(stdout)
    } else {
        Err(tail(stderr, 4))
    }
}

/// Decides what comes of a Postiz request.
pub fn request_result(exit: &Exit) -> (res: Result<String, String>)
    ensures
        result_texts(res) == request_outcome(exit.success, exit.stdout@, exit.stderr@),
{
    if exit.success {
        Ok(exit.stdout.as_str().to_owned())
    } else {
        Err(tail_of(exit.stderr.as_str(), 4))
    }
}

/// The arguments that name the channels.
pub open spec fn channel_args(ids: Seq<Seq<char>>) -> Seq<Seq<char>>
    decreases ids.len(),
{
    if ids.len() == 0 {
        Seq::empty()
    } else {
        channel_args(ids.drop_last()).push("--integration"@).push(ids.last())
    }
}

/// The arguments that publish a video. Without channels it goes to all; without
/// a time it goes out at once.
pub open spec fn publish_request(
    video: Seq<char>,
    caption: Seq<char>,
    ids: Seq<Seq<char>>,
    when: Option<Seq<char>>,
    dry_run: bool,
) -> Seq<Seq<char>> {
    let base = seq!["post"@, "--video"@, video, "--content"@, caption] + channel_args(ids);
    let timed = match when {
        Some(w) => base.push("--when"@).push(w),
        None => base,
    };
    if dry_run {
        timed.push("--dry-run"@)
    } else {
        timed
    }
}

/// The arguments that publish `video` to the given channels.
pub fn publish(
    video: &str,
    caption: &str,
    channel_ids: &[String],
    when: Option<&str>,
    dry_run: bool,
) -> (res: Vec<String>)
    ensures
        texts(res@) == publish_request(
            video@,
            caption@,
            texts(channel_ids@),
            opt_str(when),
            dry_run,
        ),
{
    let ghost ids = texts(channel_ids@);
    let ghost head = seq!["post"@, "--video"@, video@, "--content"@, caption@];
    let mut args: Vec<String> = Vec::new();
    put(&mut args, "post");
    put(&mut args, "--video");
    put(&mut args, video);
    put(&mut args, "--content");
    put(&mut args, caption);
    let mut i: usize = 0;
    assert(ids.take(0) =~= Seq::<Seq<char>>::empty());
    assert(texts(args@) =~= head + channel_args(ids.take(0)));
    while i < channel_ids.len()
        invariant
            i <= channel_ids@.len(),
            ids == texts(channel_ids@),
            texts(args@) == head + channel_args(ids.take(i as int)),
        decreases channel_ids@.len() - i,
    {
        assert(ids.take(i + 1).drop_last() =~= ids.take(i as int));
        assert(ids.take(i + 1).last() == channel_ids@[i as int]@);
        put(&mut args, "--integration");
        put(&mut args, channel_ids[i].as_str());
        assert(texts(args@) =~= head + channel_args(ids.take(i + 1)));
        i += 1;
    }
    assert(ids.take(i as int) =~= ids);
    if let Some(w) = when {
        put(&mut args, "--when");
        put(&mut args, w);
    }
    if dry_run {
        put(&mut args, "--dry-run");
    }
    args
}

/// What is recorded of a clip after it was published: nothing for a dry run,
/// which changes nothing in Postiz, nor where the clip is not known.
pub open spec fn recorded(dry_run: bool, publish_now: Option<bool>, candidate: Option<Seq<char>>) -> Option<
    (Seq<char>, Seq<char>),
> {
    match candidate {
        Some(id) => if dry_run {
            None
        } else if publish_now == Some(true) {
            Some((id, "posted"@))
        } else {
            Some((id, "draft"@))
        },
        None => None,
    }
}

/// Decides what is recorded of a clip after it was published: its id and the
/// label that the card shows.
pub fn record_for(dry_run: bool, publish_now: Option<bool>, candidate_id: Option<&str>) -> (res: Option<
    (String, String),
>)
    ensures
        match (res, recorded(dry_run, publish_now, opt_str(candidate_id))) {
            (Some(r), Some(x)) => r.0@ == x.0 && r.1@ == x.1,
            (None, None) => true,
            _ => false,
        },
{
    match candidate_id {
        Some(id) => if dry_run {
            None
        } else {
            let now = match publish_now {
                Some(b) => b,
                None => false,
            };
            if now {
                Some((id.to_owned(), "posted".to_owned()))
            } else {
                Some((id.to_owned(), "draft".to_owned()))
            }
        },
        None => None,
    }
}

/// A dry run records nothing of any clip.
pub proof fn law_dry_run(publish_now: Option<bool>, candidate: Option<Seq<char>>)
    ensures
        recorded(true, publish_now, candidate) is None,
{
}

/// No disabled channel is offered, every other one is.
pub proof fn law_enabled(channels: Seq<ChannelView>)
    ensures
        forall|i: int|
            0 <= i < enabled(channels).len() ==> !(#[trigger] enabled(channels)[i]).disabled,
        forall|c: ChannelView|
            channels.contains(c) && !c.disabled ==> #[trigger] enabled(channels).contains(c),
    decreases channels.len(),
{
    if channels.len() > 0 {
        let rest = channels.drop_last();
        law_enabled(rest);
        let all = enabled(channels);
        let before = enabled(rest);
        assert forall|i: int| 0 <= i < all.len() implies !(#[trigger] all[i]).disabled by {
            if i < before.len() {
                assert(all[i] == before[i]);
            }
        }
        assert forall|c: ChannelView| channels.contains(c) && !c.disabled implies #[trigger] all.contains(
        c) by {
            let k = choose|k: int| 0 <= k < channels.len() && channels[k] == c;
            if k < rest.len() {
                assert(rest[k] == c);
                assert(before.contains(c));
                let m = choose|m: int| 0 <= m < before.len() && before[m] == c;
                assert(all[m] == c);
            } else {
                assert(all[all.len() - 1] == c);
            }
        }
    }
}

/// A channel stands for what its fields hold, and a list of them for each.
pub proof fn law_channel_views(c: Channel, v: Seq<Channel>)
    ensures
        c@.id == c.id@ && c@.name == opt_text(c.name) && c@.identifier == opt_text(c.identifier),
        c@.profile == opt_text(c.profile) && c@.disabled == c.disabled,
        channel_views(v).len() == v.len(),
        forall|i: int| 0 <= i < v.len() ==> #[trigger] channel_views(v)[i] == v[i]@,
{
}

/// The channels that remain are those that are not disabled, each in its place.
pub proof fn law_enabled_filter(channels: Seq<ChannelView>)
    ensures
        enabled(channels) == channels.filter(|c: ChannelView| !c.disabled),
    decreases channels.len(),
{
    reveal(Seq::filter);
    if channels.len() > 0 {
        law_enabled_filter(channels.drop_last());
    }
}

/// Publishing needs a key first and an interpreter second.
pub proof fn law_runner(key: Seq<char>, python: Option<Seq<char>>, program: Seq<char>)
    ensures
        runner(None, python) == Err::<Seq<char>, Seq<char>>(
            "POSTIZ_API_KEY is not set (Postiz: Settings > Developers)"@,
        ),
        is_blank(key) ==> runner(Some(key), python) == runner(None, python),
        !is_blank(key) ==> runner(Some(key), None) == Err::<Seq<char>, Seq<char>>(
            "no Python available"@,
        ),
        !is_blank(key) ==> runner(Some(key), Some(program)) == Ok::<Seq<char>, Seq<char>>(program),
{
}

/// A request gives what was printed, and a failure the last four lines of what
/// was said.
pub proof fn law_request_outcome(stdout: Seq<char>, stderr: Seq<char>)
    ensures
        request_outcome(true, stdout, stderr) == Ok::<Seq<char>, Seq<char>>(stdout),
        request_outcome(false, stdout, stderr) == Err::<Seq<char>, Seq<char>>(tail(stderr, 4)),
{
}

/// Channel `i` is the one behind the `i`th mark.
pub proof fn law_channel_args(ids: Seq<Seq<char>>, i: int)
    requires
        0 <= i < ids.len(),
    ensures
        channel_args(ids).len() == 2 * ids.len(),
        channel_args(ids)[2 * i] == "--integration"@,
        channel_args(ids)[2 * i + 1] == ids[i],
    decreases ids.len(),
{
    let rest = ids.drop_last();
    if rest.len() == 0 {
        assert(channel_args(rest).len() == 0);
    } else if i < rest.len() {
        law_channel_args(rest, i);
    } else {
        law_channel_args(rest, 0);
    }
}

/// A post is the video and its caption on every channel, at its time where one is
/// given, and only tried out where that was asked for.
pub proof fn law_publish(
    video: Seq<char>,
    caption: Seq<char>,
    ids: Seq<Seq<char>>,
    time: Seq<char>,
    when: Option<Seq<char>>,
)
    ensures
        publish_request(video, caption, ids, None, false) == seq![
            "post"@,
            "--video"@,
            video,
            "--content"@,
            caption,
        ] + channel_args(ids),
        publish_request(video, caption, ids, Some(time), false) == publish_request(
            video,
            caption,
            ids,
            None,
            false,
        ) + seq!["--when"@, time],
        publish_request(video, caption, ids, when, true) == publish_request(
            video,
            caption,
            ids,
            when,
            false,
        ) + seq!["--dry-run"@],
{
    let base = publish_request(video, caption, ids, None, false);
    assert(base.push("--when"@).push(time) =~= base + seq!["--when"@, time]);
    let timed = publish_request(video, caption, ids, when, false);
    assert(timed.push("--dry-run"@) =~= timed + seq!["--dry-run"@]);
}

/// A post of a candidate that was not only tried out is recorded: as posted where
/// it went out at once, else as a draft.
pub proof fn law_recorded(publish_now: Option<bool>, id: Seq<char>, dry_run: bool)
    ensures
        recorded(dry_run, publish_now, None) is None,
        recorded(false, Some(true), Some(id)) == Some((id, "posted"@)),
        publish_now != Some(true) ==> recorded(false, publish_now, Some(id)) == Some((id, "draft"@)),
{
}

} // verus!
