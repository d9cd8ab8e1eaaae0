use vstd::prelude::*;
use vstd::string::StringSliceAdditionalSpecFns;

verus! {

/// Whether `needle` occurs in `hay` as a run of consecutive bytes.
pub open spec fn bytes_contain(hay: Seq<u8>, needle: Seq<u8>) -> bool {
    exists|i: int| 0 <= i <= hay.len() - needle.len() && #[trigger] hay.subrange(i, i + needle.len()) == needle
}

/// Whether `needle` occurs in `hay` as a run of consecutive bytes.
fn contains_bytes(hay: &[u8], needle: &[u8]) -> (r: bool)
    ensures
        r == bytes_contain(hay@, needle@),
{
    if needle.len() > hay.len() {
        return false;
    }
    if needle.len() == 0 {
        assert(hay@.subrange(0int, 0int + needle@.len()) =~= needle@);
        return true;
    }
    let n = hay.len();
    let positions = n - needle.len() + 1;
    let mut i: usize = 0;
    while i < positions
        invariant
            positions == hay@.len() - needle@.len() + 1,
            n == hay@.len(),
            0 < needle@.len() <= hay@.len(),
            forall|k: int| 0 <= k < i ==> #[trigger] hay@.subrange(k, k + needle@.len()) != needle@,
        decreases positions - i,
    {
        let mut j: usize = 0;
        let mut same = true;
        while j < needle.len()
            invariant
                i < positions,
                n == hay@.len(),
                positions == hay@.len() - needle@.len() + 1,
                needle@.len() <= hay@.len(),
                j <= needle@.len(),
                same == forall|m: int| 0 <= m < j ==> hay@[i + m] == needle@[m],
            decreases needle@.len() - j,
        {
            if hay[i + j] != needle[j] {
                same = false;
            }
            j = j + 1;
        }
        if same {
            assert(hay@.subrange(i as int, i + needle@.len()) =~= needle@);
            return true;
        }
        assert(hay@.subrange(i as int, i + needle@.len()) != needle@) by {
            let m = choose|m: int| 0 <= m < needle@.len() && hay@[i + m] != needle@[m];
            assert(hay@.subrange(i as int, i + needle@.len())[m] == hay@[i + m]);
        }
        i = i + 1;
    }
    false
}

/// The operating system a browser's version string names: "linux" when it
/// mentions Linux, else "unix" for X11, else "macos" for Mac, else "windows"
/// for Win, else "Unknown".
pub open spec fn os_name_of(version: Seq<u8>) -> Seq<char> {
    if bytes_contain(version, seq![76u8, 105, 110, 117, 120]) {
        "linux"@
    } else if bytes_contain(version, seq![88u8, 49, 49]) {
        "unix"@
    } else if bytes_contain(version, seq![77u8, 97, 99]) {
        "macos"@
    } else if bytes_contain(version, seq![87u8, 105, 110]) {
        "windows"@
    } else {
        "Unknown"@
    }
}

/// The operating system a browser's version string names (see `os_name_of`;
/// the names are searched as ASCII bytes).
pub fn os_name(app_version: &str) -> (r: &'static str)
    ensures
        r@ == os_name_of(app_version.spec_bytes()),
{
    let hay = app_version.as_bytes();
    let mut os_name = "Unknown";
    let win: [u8; 3] = [87, 105, 110];
    let mac: [u8; 3] = [77, 97, 99];
    let x11: [u8; 3] = [88, 49, 49];
    let linux: [u8; 5] = [76, 105, 110, 117, 120];
    assert(win@ =~= seq![87u8, 105, 110]);
    assert(mac@ =~= seq![77u8, 97, 99]);
    assert(x11@ =~= seq![88u8, 49, 49]);
    assert(linux@ =~= seq![76u8, 105, 110, 117, 120]);
    if contains_bytes(hay, &win) {
        os_name = "windows";
    }
    if contains_bytes(hay, &mac) {
        os_name = "macos";
    }
    if contains_bytes(hay, &x11) {
        os_name = "unix";
    }
    if contains_bytes(hay, &linux) {
        os_name = "linux";
    }
    os_name
}

/// Frame pacing and the count of frames per second.
#[derive(Clone, Copy, PartialEq, Eq, Debug, Structural)]
pub struct FrameClock {
    pub frame_count: u32,
    pub fps: u32,
}

impl Default for FrameClock {
    /// No frames counted yet.
    fn default() -> (r: FrameClock)
        ensures
            r.frame_count == 0 && r.fps == 0,
    {
        FrameClock { frame_count: 0, fps: 0 }
    }
}

impl FrameClock {
    /// Whether a frame is due `since_last_ms` milliseconds after the last one:
    /// frames are drawn at most 60 times a second.
    pub fn frame_due(since_last_ms: u128) -> (r: bool)
        ensures
            r == (since_last_ms > 16),
    {
        since_last_ms > 1000 / 60
    }

    /// Counts a drawn frame. Once a second or more has passed since the last
    /// count was taken (`since_update_secs`), the count becomes the frames per
    /// second and starts over; says whether that happened.
    pub fn count_frame(&mut self, since_update_secs: u64) -> (r: bool)
        requires
            old(self).frame_count < u32::MAX,
        ensures
            r == (since_update_secs >= 1),
            r ==> final(self).fps == old(self).frame_count + 1 && final(self).frame_count == 0,
            !r ==> final(self).fps == old(self).fps && final(self).frame_count == old(self).frame_count + 1,
    {
        self.frame_count = self.frame_count + 1;
        if since_update_secs >= 1 {
            self.fps = self.frame_count;
            self.frame_count = 0;
            true
        } else {
            false
        }
    }
}

/// An event of a mobile app's lifetime.
#[derive(Clone, Copy, PartialEq, Eq, Debug, Structural)]
pub enum MainEvent {
    Pause,
    Resume,
    InitWindow,
    TerminateWindow,
    Destroy,
    Other,
}

/// What the program does on an event of its lifetime.
#[derive(Clone, Copy, PartialEq, Eq, Debug, Structural)]
pub enum MainAction {
    /// Save the settings, stop drawing frames and drop the drawing surface.
    Suspend,
    /// Load the settings and draw frames again.
    Resume,
    /// Take the new window and make a drawing surface for it.
    RenewSurface,
    /// Forget the window.
    DropWindow,
    /// Leave the program.
    Exit,
    /// Nothing.
    Ignore,
}

/// The action for an event of the app's lifetime.
pub fn main_event_action(event: MainEvent) -> (r: MainAction)
    ensures
        r == (match event {
            MainEvent::Pause => MainAction::Suspend,
            MainEvent::Resume => MainAction::Resume,
            MainEvent::InitWindow => MainAction::RenewSurface,
            MainEvent::TerminateWindow => MainAction::DropWindow,
            MainEvent::Destroy => MainAction::Exit,
            MainEvent::Other => MainAction::Ignore,
        }),
{
    match event {
        MainEvent::Pause => MainAction::Suspend,
        MainEvent::Resume => MainAction::Resume,
        MainEvent::InitWindow => MainAction::RenewSurface,
        MainEvent::TerminateWindow => MainAction::DropWindow,
        MainEvent::Destroy => MainAction::Exit,
        MainEvent::Other => MainAction::Ignore,
    }
}

/// Records whether the on-screen keyboard is wanted; gives the visibility to
/// set when it differs from what is showing.
pub fn keyboard_change(showing: &mut bool, wanted: bool) -> (r: Option<bool>)
    ensures
        *final(showing) == wanted,
        r == (if wanted != *old(showing) { Some(wanted) } else { None }),
{
    if wanted != *showing {
        *showing = wanted;
        Some(wanted)
    } else {
        None
    }
}

} // verus!
