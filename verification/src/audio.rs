//! Looped playback: which samples each output frame is made of.

use vstd::prelude::*;

verus! {

/// The two samples that an output channel is interpolated between.
#[derive(Clone, Copy, Debug, PartialEq, Eq, Structural)]
pub struct SamplePair {
    pub current: usize,
    pub next: usize,
}

/// The frame after this one; the last one is followed by the first.
pub open spec fn following_frame(frame: int, total: int) -> int {
    if frame + 1 >= total {
        0
    } else {
        frame + 1
    }
}

/// The samples of an output channel: those of the recorded channel in turn.
pub open spec fn pair_for(frame: int, total: int, wav_channels: int, channel: int) -> (int, int) {
    (
        frame * wav_channels + channel % wav_channels,
        following_frame(frame, total) * wav_channels + channel % wav_channels,
    )
}

/// How many whole frames there are, or the error for a recording without samples.
pub fn frame_total(samples: usize, wav_channels: usize) -> (total: Result<usize, String>)
    requires
        wav_channels > 0,
    ensures
        match total {
            Ok(count) => samples > 0 && count == samples / wav_channels,
            Err(message) => samples == 0 && message@ == "WAV file is empty"@,
        },
{
    if samples == 0 {
        return Err("WAV file is empty".to_owned());
    }
    Ok(samples / wav_channels)
}

proof fn lemma_sample_in_range(frame: int, total: int, wav_channels: int, channel: int)
    requires
        0 <= frame < total,
        0 < wav_channels,
        0 <= channel,
    ensures
        0 <= channel % wav_channels < wav_channels,
        0 <= frame * wav_channels + channel % wav_channels < total * wav_channels,
{
    vstd::arithmetic::div_mod::lemma_mod_bound(channel, wav_channels);
    let c = channel % wav_channels;
    assert(0 <= frame * wav_channels && frame * wav_channels + c < total * wav_channels)
        by (nonlinear_arith)
        requires
            0 <= frame < total,
            0 <= c < wav_channels,
    ;
}

/// The samples that one output frame is interpolated between, channel by channel, at a
/// frame of a recording with `total` frames.
pub fn frame_samples(frame: usize, total: usize, wav_channels: usize, out_channels: usize) -> (pairs:
    Vec<SamplePair>)
    requires
        frame < total,
        wav_channels > 0,
        total * wav_channels <= usize::MAX,
    ensures
        pairs@.len() == out_channels,
        forall|c: int|
            0 <= c < out_channels ==> ((#[trigger] pairs@[c]).current as int, pairs@[c].next as int)
                == pair_for(frame as int, total as int, wav_channels as int, c),
        forall|c: int|
            0 <= c < out_channels ==> (#[trigger] pairs@[c]).current < total * wav_channels
                && pairs@[c].next < total * wav_channels,
{
    let next: usize = if frame + 1 >= total {
        0
    } else {
        frame + 1
    };
    let mut pairs: Vec<SamplePair> = Vec::new();
    let mut channel: usize = 0;
    while channel < out_channels
        invariant
            channel <= out_channels,
            pairs@.len() == channel,
            frame < total,
            next == following_frame(frame as int, total as int),
            next < total,
            wav_channels > 0,
            total * wav_channels <= usize::MAX,
            forall|c: int|
                0 <= c < channel ==> ((#[trigger] pairs@[c]).current as int, pairs@[c].next as int)
                    == pair_for(frame as int, total as int, wav_channels as int, c),
            forall|c: int|
                0 <= c < channel ==> (#[trigger] pairs@[c]).current < total * wav_channels
                    && pairs@[c].next < total * wav_channels,
        decreases out_channels - channel,
    {
        proof {
            lemma_sample_in_range(frame as int, total as int, wav_channels as int, channel as int);
            lemma_sample_in_range(next as int, total as int, wav_channels as int, channel as int);
        }
        let wav_channel: usize = channel % wav_channels;
        pairs.push(
            SamplePair {
                current: frame * wav_channels + wav_channel,
                next: next * wav_channels + wav_channel,
            },
        );
        channel += 1;
    }
    pairs
}

/// Playback loops without a gap: the frame after the last is the first, and the frame
/// after any other is the one behind it.
pub proof fn law_playback_loops(frame: int, total: int)
    requires
        0 <= frame < total,
    ensures
        0 <= following_frame(frame, total) < total,
        frame == total - 1 ==> following_frame(frame, total) == 0,
        frame < total - 1 ==> following_frame(frame, total) == frame + 1,
{
}

/// Output channels beyond the recorded ones repeat them.
pub proof fn law_channels_repeat(frame: int, total: int, wav_channels: int, channel: int)
    requires
        0 < wav_channels,
        0 <= channel,
    ensures
        pair_for(frame, total, wav_channels, channel + wav_channels) == pair_for(
            frame,
            total,
            wav_channels,
            channel,
        ),
        channel < wav_channels ==> channel % wav_channels == channel,
{
    vstd::arithmetic::div_mod::lemma_mod_add_multiples_vanish(channel, wav_channels);
    if channel < wav_channels {
        vstd::arithmetic::div_mod::lemma_small_mod(channel as nat, wav_channels as nat);
    }
}

/// A channel that was recorded is played from its own samples, frame after frame with the
/// channels side by side: the current one in its frame, the next one where the following
/// frame has it.
pub proof fn law_channels_play_their_own(frame: int, total: int, wav_channels: int, channel: int)
    requires
        0 <= channel < wav_channels,
        0 <= frame < total,
    ensures
        ({
            let (current, next) = pair_for(frame, total, wav_channels, channel);
            &&& current == wav_channels * frame + channel
            &&& frame + 1 < total ==> next == current + wav_channels
            &&& frame + 1 == total ==> next == channel
        }),
{
    vstd::arithmetic::div_mod::lemma_small_mod(channel as nat, wav_channels as nat);
    assert(frame * wav_channels == wav_channels * frame) by (nonlinear_arith);
    assert((frame + 1) * wav_channels == frame * wav_channels + wav_channels)
        by (nonlinear_arith);
}

} // verus!
