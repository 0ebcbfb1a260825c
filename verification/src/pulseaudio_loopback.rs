//! The decisions behind the "recognize from my speakers" switch: given
//! the device tables that `pactl` reports (parsed by the surrounding
//! application), work out where the recording stream is plugged and
//! where it should go. Running `pactl` and parsing its tab-separated
//! output stay outside the library.

use vstd::prelude::*;

verus! {

/// One row of a `pactl` device table: a source or a source-output,
/// reduced to what the decisions read.
#[derive(Clone, Debug)]
pub struct PactlItemInfo {
    pub is_monitor: bool,
    pub name: String,
    pub source_index: Option<u64>,
    pub index: u64,
}

/// The index of the first source whose monitor flag is `monitor`, if any.
pub open spec fn first_source_index(s: Seq<PactlItemInfo>, monitor: bool) -> Option<u64>
    decreases s.len(),
{
    if s.len() == 0 {
        None
    } else if s[0].is_monitor == monitor {
        Some(s[0].index)
    } else {
        first_source_index(s.skip(1), monitor)
    }
}

/// The index of the first source-output belonging to this program.
pub open spec fn first_own_output_index(s: Seq<PactlItemInfo>) -> Option<u64>
    decreases s.len(),
{
    if s.len() == 0 {
        None
    } else if s[0].name@ == "songrec"@ {
        Some(s[0].index)
    } else {
        first_own_output_index(s.skip(1))
    }
}

/// What the first decidable own source-output says: given the monitor
/// and non-monitor source indices, whether the stream is plugged into
/// one of them (`known`), or only whether it sits on the monitor.
pub open spec fn first_own_source_verdict(
    s: Seq<PactlItemInfo>,
    monitor_index: Option<u64>,
    non_monitor_index: Option<u64>,
    want_known: bool,
) -> Option<bool>
    decreases s.len(),
{
    if s.len() == 0 {
        None
    } else if s[0].name@ == "songrec"@ && s[0].source_index is Some && monitor_index is Some && (
    !want_known || non_monitor_index is Some) {
        if want_known {
            Some(
                s[0].source_index->Some_0 == monitor_index->Some_0 || s[0].source_index->Some_0
                    == non_monitor_index->Some_0,
            )
        } else {
            Some(s[0].source_index->Some_0 == monitor_index->Some_0)
        }
    } else {
        first_own_source_verdict(s.skip(1), monitor_index, non_monitor_index, want_known)
    }
}

/// Controls plugging the recording stream into a monitor (speaker)
/// source or a plain (microphone) source.
pub struct PulseaudioLoopback;

impl PulseaudioLoopback {
    /// The source-output of this program, among those `pactl` lists.
    pub fn get_songrec_source_output_index(source_outputs: &Vec<PactlItemInfo>) -> (r: Option<
        u64,
    >)
        ensures
            r == first_own_output_index(source_outputs@),
    {
        let own_name = String::from_str("songrec");
        let n = source_outputs.len();
        proof {
            assert(source_outputs@.skip(0) =~= source_outputs@);
        }
        for i in 0..n
            invariant
                n == source_outputs@.len(),
                own_name@ == "songrec"@,
                first_own_output_index(source_outputs@) == first_own_output_index(
                    source_outputs@.skip(i as int),
                ),
        {
            proof {
                assert(source_outputs@.skip(i as int).skip(1) =~= source_outputs@.skip(i + 1));
                assert(source_outputs@.skip(i as int)[0] == source_outputs@[i as int]);
            }
            if source_outputs[i].name == own_name {
                return Some(source_outputs[i].index);
            }
        }
        proof {
            assert(source_outputs@.skip(n as int) =~= Seq::<PactlItemInfo>::empty());
        }
        None
    }

    /// The first monitor source, which taps an output device.
    pub fn get_audio_monitor_source_index(sources: &Vec<PactlItemInfo>) -> (r: Option<u64>)
        ensures
            r == first_source_index(sources@, true),
    {
        Self::find_source(sources, true)
    }

    /// The first plain (non-monitor) source: a real input device.
    pub fn get_audio_non_monitor_source_index(sources: &Vec<PactlItemInfo>) -> (r: Option<u64>)
        ensures
            r == first_source_index(sources@, false),
    {
        Self::find_source(sources, false)
    }

    fn find_source(sources: &Vec<PactlItemInfo>, monitor: bool) -> (r: Option<u64>)
        ensures
            r == first_source_index(sources@, monitor),
    {
        let n = sources.len();
        proof {
            assert(sources@.skip(0) =~= sources@);
        }
        for i in 0..n
            invariant
                n == sources@.len(),
                first_source_index(sources@, monitor) == first_source_index(
                    sources@.skip(i as int),
                    monitor,
                ),
        {
            proof {
                assert(sources@.skip(i as int).skip(1) =~= sources@.skip(i + 1));
                assert(sources@.skip(i as int)[0] == sources@[i as int]);
            }
            if sources[i].is_monitor == monitor {
                return Some(sources[i].index);
            }
        }
        proof {
            assert(sources@.skip(n as int) =~= Seq::<PactlItemInfo>::empty());
        }
        None
    }

    /// Whether this program's stream records from a device we can
    /// account for: the first monitor source or the first plain source.
    pub fn get_whether_audio_source_is_known(
        source_outputs: &Vec<PactlItemInfo>,
        sources: &Vec<PactlItemInfo>,
    ) -> (r: Option<bool>)
        ensures
            r == first_own_source_verdict(
                source_outputs@,
                first_source_index(sources@, true),
                first_source_index(sources@, false),
                true,
            ),
    {
        let monitor_index = Self::get_audio_monitor_source_index(sources);
        let non_monitor_index = Self::get_audio_non_monitor_source_index(sources);
        Self::verdict(source_outputs, monitor_index, non_monitor_index, true)
    }

    /// Whether this program's stream records from the monitor source,
    /// that is, from the speakers rather than a microphone.
    pub fn get_whether_audio_source_is_monitor(
        source_outputs: &Vec<PactlItemInfo>,
        sources: &Vec<PactlItemInfo>,
    ) -> (r: Option<bool>)
        ensures
            r == first_own_source_verdict(
                source_outputs@,
                first_source_index(sources@, true),
                first_source_index(sources@, false),
                false,
            ),
    {
        let monitor_index = Self::get_audio_monitor_source_index(sources);
        let non_monitor_index = Self::get_audio_non_monitor_source_index(sources);
        Self::verdict(source_outputs, monitor_index, non_monitor_index, false)
    }

    fn verdict(
        source_outputs: &Vec<PactlItemInfo>,
        monitor_index: Option<u64>,
        non_monitor_index: Option<u64>,
        want_known: bool,
    ) -> (r: Option<bool>)
        ensures
            r == first_own_source_verdict(
                source_outputs@,
                monitor_index,
                non_monitor_index,
                want_known,
            ),
    {
        let own_name = String::from_str("songrec");
        let n = source_outputs.len();
        proof {
            assert(source_outputs@.skip(0) =~= source_outputs@);
        }
        for i in 0..n
            invariant
                n == source_outputs@.len(),
                own_name@ == "songrec"@,
                first_own_source_verdict(
                    source_outputs@,
                    monitor_index,
                    non_monitor_index,
                    want_known,
                ) == first_own_source_verdict(
                    source_outputs@.skip(i as int),
                    monitor_index,
                    non_monitor_index,
                    want_known,
                ),
        {
            proof {
                assert(source_outputs@.skip(i as int).skip(1) =~= source_outputs@.skip(i + 1));
                assert(source_outputs@.skip(i as int)[0] == source_outputs@[i as int]);
            }
            let item = &source_outputs[i];
            if item.name == own_name {
                if let Some(source_index) = item.source_index {
                    if let Some(monitor) = monitor_index {
                        if want_known {
                            if let Some(non_monitor) = non_monitor_index {
                                return Some(
                                    source_index == monitor || source_index == non_monitor,
                                );
                            }
                        } else {
                            return Some(source_index == monitor);
                        }
                    }
                }
            }
        }
        proof {
            assert(source_outputs@.skip(n as int) =~= Seq::<PactlItemInfo>::empty());
        }
        None
    }
}

} // verus!
