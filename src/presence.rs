//! The presence snapshot: rebuilt in place from each sample, and turned into
//! the record that the presence service is sent.

use vstd::prelude::*;
use crate::infos::{
    info_text_spec, kind_of_spec, listing_spec, load_text, parse_infos, AvailableInfos,
    SystemFacts,
};
use crate::os_identity::{asset_name_spec, display_name_spec, get_os, opt_view};
use crate::text::lower_of;

verus! {

/// What the user chose on the command line.
pub struct Options {
    pub short_os_name: bool,
    pub include_kernel: bool,
    pub additional_information: Option<String>,
    pub application_time: bool,
    pub list_available_information: bool,
}

/// The state shown by the presence service, kept across cycles.
pub struct PresenceInfo {
    pub os_name: String,
    pub information: String,
    pub asset_name: String,
    pub uptime: u64,
}

/// The fields that one publication sends.
pub struct Activity {
    pub state: String,
    pub details: String,
    pub large_image: String,
    pub large_text: String,
    pub start: u64,
}

/// The OS line: the short name or the long version string (falling back to
/// the short name), then the kernel version (`0.0` where unknown) if asked.
pub open spec fn os_line_spec(f: SystemFacts, o: Options) -> Seq<char> {
    let short = display_name_spec(opt_view(&f.os_name));
    let base = if o.short_os_name {
        short
    } else {
        match f.long_os_version {
            Some(v) => v@,
            None => short,
        }
    };
    if o.include_kernel {
        base + " "@ + match f.kernel_version {
            Some(k) => k@,
            None => "0.0"@,
        }
    } else {
        base
    }
}

/// The information line: the chosen kind, or the load average where none was
/// chosen.
pub open spec fn information_spec(f: SystemFacts, o: Options) -> Seq<char> {
    match o.additional_information {
        Some(k) => info_text_spec(kind_of_spec(lower_of(k@)), f),
        None => load_text(f.load_average_five@),
    }
}

impl Options {
    /// The listing to print, where the user asked for it instead of running.
    pub fn listing(&self) -> (r: Option<String>)
        ensures
            self.list_available_information ==> r is Some && r->0@ == listing_spec(),
            !self.list_available_information ==> r is None,
    {
        if self.list_available_information {
            Some(AvailableInfos::get_all())
        } else {
            None
        }
    }
}

impl PresenceInfo {
    /// The snapshot before the first sample, anchored at the given clock
    /// reading in seconds since the epoch. A reading before the epoch gives
    /// `None`: the clock went backwards.
    pub fn empty(now: i64) -> (r: Option<PresenceInfo>)
        ensures
            now < 0 ==> r is None,
            now >= 0 ==> r is Some && r->0.os_name@ == "linux"@ && r->0.information@.len() == 0
                && r->0.asset_name@ == "default"@ && r->0.uptime == now as u64,
    {
        if now < 0 {
            return None;
        }
        let r = PresenceInfo {
            os_name: String::from_str("linux"),
            information: String::new(),
            asset_name: String::from_str("default"),
            uptime: now as u64,
        };
        Some(r)
    }

    /// Rebuilds the snapshot from a new sample. The anchor moves to the boot
    /// time unless the application's own start time was asked for.
    pub fn refresh(&mut self, facts: &SystemFacts, options: &Options)
        ensures
            final(self).os_name@ == os_line_spec(*facts, *options),
            final(self).asset_name@ == asset_name_spec(opt_view(&facts.os_name)),
            final(self).information@ == information_spec(*facts, *options),
            final(self).uptime == if options.application_time {
                old(self).uptime
            } else {
                facts.boot_time
            },
    {
        let os = get_os(&facts.os_name);
        let mut name = if options.short_os_name {
            os.0
        } else {
            match &facts.long_os_version {
                Some(v) => v.clone(),
                None => os.0,
            }
        };
        if options.include_kernel {
            name.append(" ");
            match &facts.kernel_version {
                Some(k) => name.append(k.as_str()),
                None => name.append("0.0"),
            }
        }
        self.os_name = name;
        self.asset_name = os.1;
        if !options.application_time {
            self.uptime = facts.boot_time;
        }
        self.information = match &options.additional_information {
            Some(k) => parse_infos(k.as_str()).get_requested(facts),
            None => AvailableInfos::Load.get_requested(facts),
        };
    }

    /// The record to publish: the information as the state, the OS line as
    /// the details, the icon key as image and its text, the anchor as start.
    pub fn activity(&self) -> (r: Activity)
        ensures
            r.state@ == self.information@,
            r.details@ == self.os_name@,
            r.large_image@ == self.asset_name@,
            r.large_text@ == self.asset_name@,
            r.start == self.uptime,
    {
        Activity {
            state: self.information.clone(),
            details: self.os_name.clone(),
            large_image: self.asset_name.clone(),
            large_text: self.asset_name.clone(),
            start: self.uptime,
        }
    }
}

} // verus!
