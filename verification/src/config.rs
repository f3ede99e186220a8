//! Configuration model: the cycle of stages, the rest reminder style and the
//! thresholds, with the rules that decide whether a configuration is usable.

use vstd::prelude::*;

verus! {

/// The kind of a stage.
#[derive(Debug, Clone, Copy, PartialEq, Eq, Structural)]
pub enum StageType {
    Work,
    Rest,
}

/// One stage of the cycle.
#[derive(Debug, Clone, Copy, PartialEq, Eq, Structural)]
pub struct Stage {
    /// The kind of the stage.
    pub stage_type: StageType,
    /// Its length in minutes.
    pub minutes: u32,
}

/// How a rest is announced.
#[derive(Debug, Clone, Copy, PartialEq, Eq, Structural)]
pub enum RestReminderMode {
    /// A full-screen overlay on every display (the default).
    Fullscreen,
    /// A small window in the corner of the primary display.
    Popup,
}

/// The look of the full-screen overlay.
#[derive(Debug, Clone, Copy, PartialEq, Eq, Structural)]
pub enum OverlayStyle {
    /// Semi-transparent black (the default).
    SemiTransparent,
    /// Opaque black.
    FullBlack,
    /// A dark tone.
    Dark,
}

/// The application configuration.
#[derive(Debug, Clone)]
pub struct Config {
    /// The cycle of stages.
    pub stages: Vec<Stage>,
    /// How a rest is announced.
    pub rest_reminder_mode: RestReminderMode,
    /// The overlay look (full-screen mode only).
    pub overlay_style: OverlayStyle,
    /// The message shown on the rest overlay.
    pub rest_message: String,
    /// After this many minutes away the cycle starts over.
    pub reset_threshold_minutes: u32,
    /// The "rest is coming" notice is sent this many minutes before a work stage ends.
    pub notify_before_work_end_minutes: u32,
    /// The global shortcut that skips a rest (accelerator syntax).
    pub skip_shortcut: String,
    /// Whether autostart asks for administrator rights (Windows only).
    pub run_as_admin_autostart: bool,
}

/// The overlay style used when a stored configuration names none.
pub fn default_overlay_style() -> (s: OverlayStyle)
    ensures
        s == OverlayStyle::SemiTransparent,
{
    OverlayStyle::SemiTransparent
}

/// The rest message used when a stored configuration names none.
pub fn default_rest_message() -> (s: String)
    ensures
        s@ == DEFAULT_REST_MESSAGE@,
{
    String::from_str(DEFAULT_REST_MESSAGE)
}

/// The default rest message.
pub const DEFAULT_REST_MESSAGE: &'static str = "现在休息";

/// The default skip shortcut.
pub const DEFAULT_SKIP_SHORTCUT: &'static str = "CmdOrCtrl+Shift+F2";

/// Error text: the cycle is empty.
pub const ERR_EMPTY_STAGES: &'static str = "stages 不能为空";

/// Error text: the cycle has no work stage.
pub const ERR_NO_WORK_STAGE: &'static str = "stages 至少需要包含一个 work 阶段";

/// Error text: a stage lasts zero minutes.
pub const ERR_ZERO_MINUTES: &'static str = "每个阶段 minutes 必须 > 0";

/// Error text: the reset threshold is zero.
pub const ERR_ZERO_THRESHOLD: &'static str = "reset_threshold_minutes 必须 > 0";

/// Error text: the skip shortcut is blank.
pub const ERR_BLANK_SHORTCUT: &'static str = "skip_shortcut 不能为空";

/// Whether a character has the Unicode `White_Space` property, the set that
/// `str::trim` removes.
pub open spec fn is_white_space(c: char) -> bool {
    let u = c as u32;
    ||| (0x09 <= u && u <= 0x0d)
    ||| u == 0x20
    ||| u == 0x85
    ||| u == 0xa0
    ||| u == 0x1680
    ||| (0x2000 <= u && u <= 0x200a)
    ||| u == 0x2028
    ||| u == 0x2029
    ||| u == 0x202f
    ||| u == 0x205f
    ||| u == 0x3000
}

/// Whether a text is empty once trimmed: every character is white space.
pub open spec fn is_blank(s: Seq<char>) -> bool {
    forall|i: int| 0 <= i < s.len() ==> is_white_space(#[trigger] s[i])
}

/// Whether the cycle holds a work stage.
pub open spec fn has_work_stage(stages: Seq<Stage>) -> bool {
    exists|i: int| 0 <= i < stages.len() && (#[trigger] stages[i]).stage_type == StageType::Work
}

/// Whether some stage lasts zero minutes.
pub open spec fn has_zero_minutes(stages: Seq<Stage>) -> bool {
    exists|i: int| 0 <= i < stages.len() && (#[trigger] stages[i]).minutes == 0
}

/// The first rule a configuration breaks, in the order the rules are checked,
/// or `None` when it is valid.
pub open spec fn validation_error(c: Config) -> Option<Seq<char>> {
    if c.stages@.len() == 0 {
        Some(ERR_EMPTY_STAGES@)
    } else if !has_work_stage(c.stages@) {
        Some(ERR_NO_WORK_STAGE@)
    } else if has_zero_minutes(c.stages@) {
        Some(ERR_ZERO_MINUTES@)
    } else if c.reset_threshold_minutes == 0 {
        Some(ERR_ZERO_THRESHOLD@)
    } else if is_blank(c.skip_shortcut@) {
        Some(ERR_BLANK_SHORTCUT@)
    } else {
        None
    }
}

/// Whether a configuration is valid.
pub open spec fn config_valid(c: Config) -> bool {
    validation_error(c) is None
}

/// The default configuration: work 45 minutes, rest 15, full-screen overlay,
/// reset after 30 minutes away, notice 1 minute before a work stage ends.
pub open spec fn is_default_config(c: Config) -> bool {
    &&& c.stages@ == seq![
        Stage { stage_type: StageType::Work, minutes: 45 },
        Stage { stage_type: StageType::Rest, minutes: 15 },
    ]
    &&& c.rest_reminder_mode == RestReminderMode::Fullscreen
    &&& c.overlay_style == OverlayStyle::SemiTransparent
    &&& c.rest_message@ == DEFAULT_REST_MESSAGE@
    &&& c.reset_threshold_minutes == 30
    &&& c.notify_before_work_end_minutes == 1
    &&& c.skip_shortcut@ == DEFAULT_SKIP_SHORTCUT@
    &&& !c.run_as_admin_autostart
}

/// Whether a character is Unicode white space.
pub fn char_is_white_space(c: char) -> (r: bool)
    ensures
        r == is_white_space(c),
{
    let u = c as u32;
    (0x09 <= u && u <= 0x0d) || u == 0x20 || u == 0x85 || u == 0xa0 || u == 0x1680 || (0x2000
        <= u && u <= 0x200a) || u == 0x2028 || u == 0x2029 || u == 0x202f || u == 0x205f || u
        == 0x3000
}

/// Whether a text is empty once trimmed.
pub fn str_is_blank(s: &str) -> (r: bool)
    ensures
        r == is_blank(s@),
{
    let n = s.unicode_len();
    let mut i: usize = 0;
    while i < n
        invariant
            n == s@.len(),
            i <= n,
            forall|j: int| 0 <= j < i ==> is_white_space(#[trigger] s@[j]),
        decreases n - i,
    {
        let c = s.get_char(i);
        if !char_is_white_space(c) {
            return false;
        }
        i = i + 1;
    }
    true
}

impl Default for Config {
    fn default() -> (c: Config)
        ensures
            is_default_config(c),
    {
        Config {
            stages: vec![
                Stage { stage_type: StageType::Work, minutes: 45 },
                Stage { stage_type: StageType::Rest, minutes: 15 },
            ],
            rest_reminder_mode: RestReminderMode::Fullscreen,
            overlay_style: OverlayStyle::SemiTransparent,
            rest_message: String::from_str(DEFAULT_REST_MESSAGE),
            reset_threshold_minutes: 30,
            notify_before_work_end_minutes: 1,
            skip_shortcut: String::from_str(DEFAULT_SKIP_SHORTCUT),
            run_as_admin_autostart: false,
        }
    }
}

impl Config {
    /// The path of the configuration file inside the data directory.
    pub fn config_path(data_dir: &str) -> (p: String)
        ensures
            p@ == data_dir@ + "/config.json"@,
    {
        let mut p = String::from_str(data_dir);
        p.append("/config.json");
        p
    }

    /// Checks the configuration: the cycle is not empty, holds a work stage,
    /// every stage lasts at least a minute, the reset threshold is positive and
    /// the skip shortcut is not blank. The error names the first rule broken.
    pub fn validate(&self) -> (r: Result<(), String>)
        ensures
            r is Ok <==> config_valid(*self),
            r matches Err(e) ==> Some(e@) == validation_error(*self),
    {
        let n = self.stages.len();
        if n == 0 {
            return Err(String::from_str(ERR_EMPTY_STAGES));
        }
        let mut i: usize = 0;
        while i < n && self.stages[i].stage_type != StageType::Work
            invariant
                n == self.stages@.len(),
                i <= n,
                forall|j: int| 0 <= j < i ==> (#[trigger] self.stages@[j]).stage_type
                    != StageType::Work,
            decreases n - i,
        {
            i = i + 1;
        }
        if i == n {
            return Err(String::from_str(ERR_NO_WORK_STAGE));
        }
        let mut k: usize = 0;
        while k < n
            invariant
                n == self.stages@.len(),
                k <= n,
                has_work_stage(self.stages@),
                forall|j: int| 0 <= j < k ==> (#[trigger] self.stages@[j]).minutes != 0,
            decreases n - k,
        {
            if self.stages[k].minutes == 0 {
                return Err(String::from_str(ERR_ZERO_MINUTES));
            }
            k = k + 1;
        }
        if self.reset_threshold_minutes == 0 {
            return Err(String::from_str(ERR_ZERO_THRESHOLD));
        }
        if str_is_blank(self.skip_shortcut.as_str()) {
            return Err(String::from_str(ERR_BLANK_SHORTCUT));
        }
        Ok(())
    }
}

/// The default configuration passes validation.
pub proof fn lemma_default_config_is_valid(c: Config)
    requires
        is_default_config(c),
    ensures
        config_valid(c),
{
    reveal_strlit("CmdOrCtrl+Shift+F2");
    assert(!is_white_space(c.skip_shortcut@[0]));
    assert(c.stages@[0].stage_type == StageType::Work);
    if has_zero_minutes(c.stages@) {
        let i = choose|i: int| 0 <= i < c.stages@.len() && (#[trigger] c.stages@[i]).minutes == 0;
        assert(i == 0 || i == 1);
    }
}

/// Validation keeps exactly the rules, whatever the order of the stages: a
/// configuration is valid if and only if it has a stage, some stage is work,
/// every stage lasts at least a minute, the reset threshold is positive and
/// the skip shortcut holds a character that is not white space. The
/// no-work-stage error comes exactly for a non-empty cycle in which no stage
/// is work.
pub proof fn lemma_validation_keeps_the_rules(c: Config)
    ensures
        config_valid(c) <==> {
            &&& c.stages@.len() > 0
            &&& exists|i: int|
                0 <= i < c.stages@.len() && (#[trigger] c.stages@[i]).stage_type == StageType::Work
            &&& forall|i: int| 0 <= i < c.stages@.len() ==> (#[trigger] c.stages@[i]).minutes > 0
            &&& c.reset_threshold_minutes > 0
            &&& exists|i: int|
                0 <= i < c.skip_shortcut@.len() && !is_white_space(#[trigger] c.skip_shortcut@[i])
        },
        validation_error(c) == Some(ERR_NO_WORK_STAGE@) <==> {
            &&& c.stages@.len() > 0
            &&& forall|i: int|
                0 <= i < c.stages@.len() ==> (#[trigger] c.stages@[i]).stage_type != StageType::Work
        },
{
    reveal_strlit("stages 不能为空");
    reveal_strlit("stages 至少需要包含一个 work 阶段");
    reveal_strlit("每个阶段 minutes 必须 > 0");
    reveal_strlit("reset_threshold_minutes 必须 > 0");
    reveal_strlit("skip_shortcut 不能为空");
    assert(ERR_EMPTY_STAGES@ != ERR_NO_WORK_STAGE@) by {
        assert(ERR_EMPTY_STAGES@.len() != ERR_NO_WORK_STAGE@.len());
    }
    assert(ERR_ZERO_MINUTES@ != ERR_NO_WORK_STAGE@) by {
        assert(ERR_ZERO_MINUTES@.len() != ERR_NO_WORK_STAGE@.len());
    }
    assert(ERR_ZERO_THRESHOLD@ != ERR_NO_WORK_STAGE@) by {
        assert(ERR_ZERO_THRESHOLD@.len() != ERR_NO_WORK_STAGE@.len());
    }
    assert(ERR_BLANK_SHORTCUT@ != ERR_NO_WORK_STAGE@) by {
        assert(ERR_BLANK_SHORTCUT@.len() != ERR_NO_WORK_STAGE@.len());
    }
}

} // verus!
