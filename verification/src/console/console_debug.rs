//! The console's side of a debug session: the call stack that is shown, the
//! state kept between prompts, and what breakpoints print.
use vstd::prelude::*;

use crate::r_object::RObject;
use crate::text;

verus! {

/// Debug call text captured from R's debug output.
#[derive(Debug)]
pub enum DebugCallText {
    /// `debug: <expr>`, emitted when stepping without srcrefs.
    Debug(String),
    /// `debug at <path>#<line>: <expr>`, emitted when stepping with srcrefs.
    DebugAt(String),
}

/// Why R stopped in the debugger.
#[derive(Debug)]
pub enum DebugStoppedReason {
    Step,
    Pause,
    Condition { class: String, message: String },
}

#[derive(Debug)]
pub struct FrameInfo {
    pub id: i64,
    /// The name shown in the editor tab bar when this frame is viewed.
    pub source_name: String,
    /// The name shown in the stack frame UI when this frame is visible.
    pub frame_name: String,
    pub source: FrameSource,
    pub environment: Option<RObject>,
    pub start_line: i64,
    pub start_column: i64,
    pub end_line: i64,
    pub end_column: i64,
}

#[derive(Debug, PartialEq, Eq)]
pub enum FrameSource {
    File(String),
    Text(String),
}

/// What a source stands for.
#[verifier::ext_equal]
pub enum SourceModel {
    File(Seq<char>),
    Text(Seq<char>),
}

impl View for FrameSource {
    type V = SourceModel;

    open spec fn view(&self) -> SourceModel {
        match self {
            FrameSource::File(s) => SourceModel::File(s@),
            FrameSource::Text(s) => SourceModel::Text(s@),
        }
    }
}

impl FrameSource {
    /// A copy of the source.
    pub fn copied(&self) -> (r: FrameSource)
        ensures
            r == *self,
    {
        match self {
            FrameSource::File(s) => FrameSource::File(s.clone()),
            FrameSource::Text(s) => FrameSource::Text(s.clone()),
        }
    }

    /// Whether two sources are the same.
    pub fn same(&self, other: &FrameSource) -> (r: bool)
        ensures
            r == (self@ == other@),
    {
        match (self, other) {
            (FrameSource::File(a), FrameSource::File(b)) => text::same(a.as_str(), b.as_str()),
            (FrameSource::Text(a), FrameSource::Text(b)) => text::same(a.as_str(), b.as_str()),
            _ => false,
        }
    }
}

/// Identifies a frame by value, without its environment.
#[derive(Debug, PartialEq, Eq)]
pub struct FrameInfoId {
    pub source: FrameSource,
    pub start_line: i64,
    pub start_column: i64,
    pub end_line: i64,
    pub end_column: i64,
}

/// What the identity of a frame stands for.
#[verifier::ext_equal]
pub struct FrameIdModel {
    pub source: SourceModel,
    pub start_line: i64,
    pub start_column: i64,
    pub end_line: i64,
    pub end_column: i64,
}

impl View for FrameInfoId {
    type V = FrameIdModel;

    open spec fn view(&self) -> FrameIdModel {
        FrameIdModel {
            source: self.source@,
            start_line: self.start_line,
            start_column: self.start_column,
            end_line: self.end_line,
            end_column: self.end_column,
        }
    }
}

impl FrameInfo {
    /// The identity of the frame.
    pub open spec fn spec_id(self) -> FrameIdModel {
        FrameIdModel {
            source: self.source@,
            start_line: self.start_line,
            start_column: self.start_column,
            end_line: self.end_line,
            end_column: self.end_column,
        }
    }
}

impl FrameInfoId {
    /// The identity of a frame.
    pub fn from(info: &FrameInfo) -> (r: FrameInfoId)
        ensures
            r@ == info.spec_id(),
    {
        FrameInfoId {
            source: info.source.copied(),
            start_line: info.start_line,
            start_column: info.start_column,
            end_line: info.end_line,
            end_column: info.end_column,
        }
    }

    fn same(&self, other: &FrameInfoId) -> (r: bool)
        ensures
            r == (self@ == other@),
    {
        self.source.same(&other.source) && self.start_line == other.start_line
            && self.start_column == other.start_column && self.end_line == other.end_line
            && self.end_column == other.end_column
    }
}

/// The identities of the frames of a stack.
pub open spec fn stack_ids(stack: Seq<FrameInfo>) -> Seq<FrameIdModel> {
    stack.map_values(|f: FrameInfo| f.spec_id())
}

/// What recorded identities stand for.
pub open spec fn id_models(ids: Seq<FrameInfoId>) -> Seq<FrameIdModel> {
    ids.map_values(|i: FrameInfoId| i@)
}

/// The identities of the frames of a stack.
pub fn stack_id(stack: &Vec<FrameInfo>) -> (r: Vec<FrameInfoId>)
    ensures
        id_models(r@) == stack_ids(stack@),
{
    let mut r: Vec<FrameInfoId> = Vec::new();
    let n: usize = stack.len();
    let mut i: usize = 0;
    while i < n
        invariant
            n == stack@.len(),
            i <= n,
            id_models(r@) == stack_ids(stack@).take(i as int),
        decreases n - i,
    {
        let ghost before = r@;
        r.push(FrameInfoId::from(&stack[i]));
        assert(id_models(r@) =~= id_models(before).push(stack@[i as int].spec_id()));
        assert(stack_ids(stack@).take(i + 1) =~= stack_ids(stack@).take(i as int).push(
            stack@[i as int].spec_id(),
        ));
        i = i + 1;
    }
    assert(stack_ids(stack@).take(n as int) =~= stack_ids(stack@));
    r
}

/// Whether two recorded stacks are the same.
pub fn same_stack(a: &Vec<FrameInfoId>, b: &Vec<FrameInfoId>) -> (r: bool)
    ensures
        r == (id_models(a@) == id_models(b@)),
{
    if a.len() != b.len() {
        assert(id_models(a@).len() != id_models(b@).len());
        return false;
    }
    let n: usize = a.len();
    let mut i: usize = 0;
    while i < n
        invariant
            n == a@.len(),
            n == b@.len(),
            i <= n,
            forall|k: int| 0 <= k < i ==> a@[k]@ == b@[k]@,
        decreases n - i,
    {
        if !a[i].same(&b[i]) {
            assert(id_models(a@)[i as int] != id_models(b@)[i as int]);
            return false;
        }
        i = i + 1;
    }
    assert(id_models(a@) =~= id_models(b@));
    true
}

/// Which categories of hidden frames to show.
#[derive(Clone, Copy, Debug, PartialEq, Eq, Structural)]
pub struct ShowHiddenFrames {
    /// Show frames fenced by `..stacktraceon..` and `..stacktraceoff..`.
    pub fenced: bool,
    /// Show internal condition handling frames, such as `.handleSimpleError()`.
    pub internal: bool,
}

/// Whether some of `values` is `name`.
fn any_is(values: &Vec<String>, name: &str) -> (r: bool)
    ensures
        r == text::texts(values@).contains(name@),
{
    let n: usize = values.len();
    let mut i: usize = 0;
    while i < n
        invariant
            n == values@.len(),
            i <= n,
            forall|k: int| 0 <= k < i ==> values@[k]@ != name@,
        decreases n - i,
    {
        if text::same(values[i].as_str(), name) {
            assert(text::texts(values@)[i as int] == name@);
            return true;
        }
        i = i + 1;
    }
    assert forall|k: int| 0 <= k < text::texts(values@).len() implies text::texts(values@)[k]
        != name@ by {}
    false
}

/// The categories to show, from what the option `ark.debugger.show_hidden_frames`
/// holds. Nothing is shown if the option cannot be read.
pub fn get_show_hidden_frames(option: Option<Vec<String>>) -> (r: ShowHiddenFrames)
    ensures
        match option {
            Some(values) => r.fenced == text::texts(values@).contains("fenced"@) && r.internal
                == text::texts(values@).contains("internal"@),
            None => !r.fenced && !r.internal,
        },
{
    match option {
        Some(values) => ShowHiddenFrames {
            fenced: any_is(&values, "fenced"),
            internal: any_is(&values, "internal"),
        },
        None => ShowHiddenFrames { fenced: false, internal: false },
    }
}

/// The frame opens a hidden region.
pub open spec fn opens_fence(f: FrameInfo) -> bool {
    "..stacktraceon.."@.is_prefix_of(f.frame_name@)
}

/// The frame closes a hidden region.
pub open spec fn closes_fence(f: FrameInfo) -> bool {
    !opens_fence(f) && "..stacktraceoff.."@.is_prefix_of(f.frame_name@)
}

/// The frames of `frames` that stand in no hidden region, where the first frame
/// stands in `depth` of them. The frames that open and close a region are not
/// shown.
pub open spec fn unfenced(frames: Seq<FrameInfo>, depth: nat) -> Seq<FrameInfo>
    decreases frames.len(),
{
    if frames.len() == 0 {
        frames
    } else {
        let rest = frames.drop_first();
        if opens_fence(frames[0]) {
            unfenced(rest, depth + 1)
        } else if closes_fence(frames[0]) {
            unfenced(rest, if depth == 0 { 0 } else { (depth - 1) as nat })
        } else if depth == 0 {
            seq![frames[0]] + unfenced(rest, depth)
        } else {
            unfenced(rest, depth)
        }
    }
}

/// The frames that are shown: the topmost one, and those that stand in no hidden
/// region.
pub open spec fn visible_frames(frames: Seq<FrameInfo>) -> Seq<FrameInfo> {
    if frames.len() == 0 {
        frames
    } else {
        seq![frames[0]] + unfenced(frames.drop_first(), 0)
    }
}

/// Removes frames fenced between `..stacktraceon..` and `..stacktraceoff..`.
///
/// The stack is innermost first, so going outward `..stacktraceon..` enters a
/// hidden region and `..stacktraceoff..` leaves it. The topmost frame is never
/// removed, so that the user always sees where R is stopped.
pub fn remove_fenced_frames(frames: &mut Vec<FrameInfo>)
    requires
        old(frames)@.len() <= u32::MAX,
    ensures
        final(frames)@ == visible_frames(old(frames)@),
{
    let ghost all = frames@;
    if frames.len() == 0 {
        return ;
    }
    let mut hidden_depth: u32 = 0;
    let mut i: usize = 1;
    let ghost mut done: int = 1;
    proof {
        assert(frames@.take(1) =~= seq![all[0]]);
        assert(frames@.skip(1) =~= all.skip(1));
        assert(all.skip(1) =~= all.drop_first());
    }
    while i < frames.len()
        invariant
            1 <= i <= frames@.len(),
            1 <= done <= all.len(),
            all.len() <= u32::MAX,
            hidden_depth < done,
            frames@.skip(i as int) == all.skip(done),
            frames@.take(i as int) + unfenced(all.skip(done), hidden_depth as nat)
                == visible_frames(all),
        decreases frames@.len() - i,
    {
        let ghost now = frames@;
        let ghost rest = all.skip(done);
        proof {
            assert(rest.len() == now.len() - i);
            assert(rest[0] == now.skip(i as int)[0]);
            assert(rest.drop_first() =~= all.skip(done + 1));
        }
        let name: &str = frames[i].frame_name.as_str();
        let opens: bool = text::starts_with(name, "..stacktraceon..");
        let closes: bool = text::starts_with(name, "..stacktraceoff..");
        if opens {
            hidden_depth = hidden_depth + 1;
        } else if closes {
            hidden_depth = if hidden_depth == 0 {
                0
            } else {
                hidden_depth - 1
            };
        }
        if opens || closes || hidden_depth != 0 {
            let _f: FrameInfo = frames.remove(i);
            proof {
                assert(frames@.take(i as int) =~= now.take(i as int));
                assert(frames@.skip(i as int) =~= now.skip(i as int).drop_first());
            }
        } else {
            i = i + 1;
            proof {
                assert(now.take(i as int) =~= now.take(i - 1) + seq![rest[0]]);
                assert(now.skip(i as int) =~= now.skip(i - 1).drop_first());
                assert(now.take(i - 1) + (seq![rest[0]] + unfenced(all.skip(done + 1), 0))
                    =~= now.take(i as int) + unfenced(all.skip(done + 1), 0));
            }
        }
        proof {
            done = done + 1;
        }
    }
    proof {
        assert(frames@.skip(i as int).len() == 0);
        assert(frames@.take(i as int) =~= frames@);
        assert(frames@ + unfenced(all.skip(done), hidden_depth as nat) =~= frames@);
    }
}

/// Hides the fenced frames of a stack.
pub fn filter_hidden_frames(frames: &mut Vec<FrameInfo>)
    requires
        old(frames)@.len() <= u32::MAX,
    ensures
        final(frames)@ == visible_frames(old(frames)@),
{
    remove_fenced_frames(frames);
}

/// The topmost frame is always shown, and no other frame that is shown opens or
/// closes a hidden region.
pub proof fn law_topmost_frame_shown(frames: Seq<FrameInfo>)
    ensures
        frames.len() > 0 ==> visible_frames(frames).len() > 0 && visible_frames(frames)[0]
            == frames[0],
        forall|i: int|
            0 < i < visible_frames(frames).len() ==> !opens_fence(
                #[trigger] visible_frames(frames)[i],
            ) && !closes_fence(visible_frames(frames)[i]),
{
    if frames.len() > 0 {
        lemma_unfenced_plain(frames.drop_first(), 0);
        assert forall|i: int| 0 < i < visible_frames(frames).len() implies !opens_fence(
            #[trigger] visible_frames(frames)[i],
        ) && !closes_fence(visible_frames(frames)[i]) by {
            assert(visible_frames(frames)[i] == unfenced(frames.drop_first(), 0)[i - 1]);
        }
    }
}

proof fn lemma_unfenced_plain(frames: Seq<FrameInfo>, depth: nat)
    ensures
        forall|i: int|
            0 <= i < unfenced(frames, depth).len() ==> !opens_fence(
                #[trigger] unfenced(frames, depth)[i],
            ) && !closes_fence(unfenced(frames, depth)[i]),
    decreases frames.len(),
{
    if frames.len() > 0 {
        let rest = frames.drop_first();
        lemma_unfenced_plain(rest, depth + 1);
        lemma_unfenced_plain(rest, depth);
        if depth > 0 {
            lemma_unfenced_plain(rest, (depth - 1) as nat);
        }
        let shown = unfenced(frames, depth);
        assert forall|i: int| 0 <= i < shown.len() implies !opens_fence(#[trigger] shown[i])
            && !closes_fence(shown[i]) by {
            if opens_fence(frames[0]) {
                assert(shown[i] == unfenced(rest, depth + 1)[i]);
            } else if closes_fence(frames[0]) {
                if depth == 0 {
                    assert(shown[i] == unfenced(rest, depth)[i]);
                } else {
                    assert(shown[i] == unfenced(rest, (depth - 1) as nat)[i]);
                }
            } else if depth == 0 {
                if i > 0 {
                    assert(shown[i] == unfenced(rest, depth)[i - 1]);
                }
            } else {
                assert(shown[i] == unfenced(rest, depth)[i]);
            }
        }
    }
}

/// The regions that `frames` opens are all closed in it, and it closes no other:
/// after each of its frames at least as many are opened as closed, and at the end
/// as many.
pub open spec fn balanced(frames: Seq<FrameInfo>, depth: nat) -> bool
    decreases frames.len(),
{
    if frames.len() == 0 {
        depth == 0
    } else {
        let rest = frames.drop_first();
        if opens_fence(frames[0]) {
            balanced(rest, depth + 1)
        } else if closes_fence(frames[0]) {
            depth > 0 && balanced(rest, (depth - 1) as nat)
        } else {
            balanced(rest, depth)
        }
    }
}

/// A hidden region hides everything in it, regions nested in it too: what
/// follows is shown as if the region were not there.
pub proof fn law_fenced_region_hidden(
    on: FrameInfo,
    inner: Seq<FrameInfo>,
    off: FrameInfo,
    rest: Seq<FrameInfo>,
)
    requires
        opens_fence(on),
        closes_fence(off),
        balanced(inner, 0),
    ensures
        unfenced(seq![on] + inner + seq![off] + rest, 0) == unfenced(rest, 0),
{
    let whole = seq![on] + inner + seq![off] + rest;
    assert(whole.drop_first() =~= inner + (seq![off] + rest));
    lemma_inside_region(inner, 0, seq![off] + rest);
    assert((seq![off] + rest).drop_first() =~= rest);
}

proof fn lemma_inside_region(inner: Seq<FrameInfo>, depth: nat, rest: Seq<FrameInfo>)
    requires
        balanced(inner, depth),
    ensures
        unfenced(inner + rest, depth + 1) == unfenced(rest, 1),
    decreases inner.len(),
{
    if inner.len() == 0 {
        assert(inner + rest =~= rest);
    } else {
        let tail = inner.drop_first();
        assert((inner + rest).drop_first() =~= tail + rest);
        if opens_fence(inner[0]) {
            lemma_inside_region(tail, depth + 1, rest);
        } else if closes_fence(inner[0]) {
            lemma_inside_region(tail, (depth - 1) as nat, rest);
        } else {
            lemma_inside_region(tail, depth, rest);
        }
    }
}

/// The stack without the frames at its top that match the prefixes in order.
pub open spec fn without_prefix(stack: Seq<FrameInfo>, prefixes: Seq<Seq<char>>) -> Seq<FrameInfo>
    decreases prefixes.len(),
{
    if prefixes.len() > 0 && stack.len() > 0 && prefixes[0].is_prefix_of(stack[0].frame_name@) {
        without_prefix(stack.drop_first(), prefixes.drop_first())
    } else {
        stack
    }
}

/// What the prefixes hold.
pub open spec fn prefix_texts(prefixes: Seq<&str>) -> Seq<Seq<char>> {
    prefixes.map_values(|p: &str| p@)
}

/// Removes frames from the top of the stack that match the prefixes in order.
pub fn remove_frame_prefix(stack: &mut Vec<FrameInfo>, prefixes: &Vec<&str>)
    ensures
        final(stack)@ == without_prefix(old(stack)@, prefix_texts(prefixes@)),
{
    let ghost all = prefix_texts(prefixes@);
    let n: usize = prefixes.len();
    let mut i: usize = 0;
    assert(all.skip(0) =~= all);
    while i < n
        invariant
            n == prefixes@.len(),
            all == prefix_texts(prefixes@),
            i <= n,
            without_prefix(old(stack)@, all) == without_prefix(stack@, all.skip(i as int)),
        decreases n - i,
    {
        let ghost rest = all.skip(i as int);
        proof {
            assert(rest[0] == prefixes@[i as int]@);
            assert(rest.drop_first() =~= all.skip(i + 1));
        }
        if stack.len() > 0 && text::starts_with(stack[0].frame_name.as_str(), prefixes[i]) {
            let ghost before = stack@;
            let _f: FrameInfo = stack.remove(0);
            assert(stack@ =~= before.drop_first());
        } else {
            return ;
        }
        i = i + 1;
    }
}

/// The frames of base R that signal an error.
pub open spec fn error_frames() -> Seq<Seq<char>> {
    seq![".handleSimpleError()"@]
}

/// The frames of base R that signal a warning.
pub open spec fn warning_frames() -> Seq<Seq<char>> {
    seq![
        "doWithOneRestart()"@,
        "withOneRestart()"@,
        "withRestarts()"@,
        ".signalSimpleWarning"@,
    ]
}

/// The stack without the frame of our own handler at its top.
pub open spec fn without_handler(
    stack: Seq<FrameInfo>,
    reason: DebugStoppedReason,
) -> Seq<FrameInfo> {
    if (reason is Condition || reason is Pause) && stack.len() > 0 {
        stack.drop_first()
    } else {
        stack
    }
}

/// The stack without the frames at its top that belong to the debugger or to
/// base R's handling of conditions.
pub open spec fn without_condition_handling(
    stack: Seq<FrameInfo>,
    reason: DebugStoppedReason,
) -> Seq<FrameInfo> {
    without_prefix(
        without_prefix(without_handler(stack, reason), error_frames()),
        warning_frames(),
    )
}

/// Removes frames at the top that are part of the debug infrastructure rather
/// than user code.
pub fn remove_condition_handling_frames(
    stack: &mut Vec<FrameInfo>,
    stopped_reason: &DebugStoppedReason,
)
    ensures
        final(stack)@ == without_condition_handling(old(stack)@, *stopped_reason),
{
    let ghost before = stack@;
    // When R stops at an exception breakpoint or a pause, the top frame is our
    // global handler that calls `browser()`.
    let handler: bool = match stopped_reason {
        DebugStoppedReason::Condition { .. } => true,
        DebugStoppedReason::Pause => true,
        DebugStoppedReason::Step => false,
    };
    if handler && stack.len() > 0 {
        let _f: FrameInfo = stack.remove(0);
        assert(stack@ =~= before.drop_first());
    }
    let errors: Vec<&str> = vec![".handleSimpleError()"];
    assert(prefix_texts(errors@) =~= error_frames());
    remove_frame_prefix(stack, &errors);
    let warnings: Vec<&str> = vec![
        "doWithOneRestart()",
        "withOneRestart()",
        "withRestarts()",
        ".signalSimpleWarning",
    ];
    assert(prefix_texts(warnings@) =~= warning_frames());
    remove_frame_prefix(stack, &warnings);
}

/// One frame of the call stack as R describes it. Lines and columns count from
/// one, and the end column is that of the last character.
#[derive(Debug)]
pub struct RFrame {
    pub source_name: String,
    pub frame_name: String,
    pub file: Option<String>,
    pub text: Option<String>,
    pub environment: Option<RObject>,
    pub start_line: i32,
    pub start_column: i32,
    pub end_line: i32,
    pub end_column: i32,
}

/// The source of a frame: its text if there is one, else its file.
pub open spec fn frame_source(info: RFrame) -> Option<FrameSource> {
    match (info.text, info.file) {
        (Some(text), _) => Some(FrameSource::Text(text)),
        (None, Some(file)) => Some(FrameSource::File(file)),
        (None, None) => None,
    }
}

/// `f` is the frame that R describes as `info`.
pub open spec fn is_frame(f: FrameInfo, info: RFrame, id: i64) -> bool {
    &&& f.id == id
    &&& f.source_name == info.source_name
    &&& f.frame_name == info.frame_name
    &&& Some(f.source) == frame_source(info)
    &&& f.environment == info.environment
    &&& f.start_line == info.start_line
    &&& f.start_column == info.start_column
    &&& f.end_line == info.end_line
    &&& f.end_column == info.end_column + 1
}

/// The frame that R describes as `info`. Columns end after their last character,
/// so the end column is one more than R's.
pub fn as_frame_info(info: RFrame, id: i64) -> (r: Result<FrameInfo, &'static str>)
    requires
        info.end_column < i32::MAX,
    ensures
        match r {
            Ok(f) => is_frame(f, info, id),
            Err(message) => frame_source(info) is None && message@
                == "Expected either `file` or `text` to be non-`NULL`."@,
        },
{
    let source: FrameSource = match (info.text, info.file) {
        (Some(text), _) => FrameSource::Text(text),
        (None, Some(file)) => FrameSource::File(file),
        (None, None) => {
            return Err("Expected either `file` or `text` to be non-`NULL`.");
        },
    };
    Ok(
        FrameInfo {
            id,
            source_name: info.source_name,
            frame_name: info.frame_name,
            source,
            environment: info.environment,
            start_line: info.start_line as i64,
            start_column: info.start_column as i64,
            end_line: info.end_line as i64,
            end_column: (info.end_column + 1) as i64,
        },
    )
}

/// What R is told when it is asked for the call stack: the call that is next, and the
/// last known line.
#[derive(Debug, PartialEq, Eq)]
pub struct StackQuery {
    pub call_text: Option<String>,
    pub last_line: Option<i32>,
}

/// R is told of a call and a line. Lines that are no integers of R's cannot be told.
pub open spec fn is_stack_query(
    r: Option<StackQuery>,
    call_text: Option<Seq<char>>,
    last_line: Option<i64>,
) -> bool {
    match last_line {
        Some(line) => if i32::MIN <= line <= i32::MAX {
            &&& r matches Some(q)
            &&& text::opt_text(q.call_text) == call_text
            &&& q.last_line == Some(line as i32)
        } else {
            r is None
        },
        None => {
            &&& r matches Some(q)
            &&& text::opt_text(q.call_text) == call_text
            &&& q.last_line is None
        },
    }
}

/// What R is told of a call and a line. None if the line is no integer of R's.
pub fn stack_query(call_text: Option<&String>, last_line: Option<i64>) -> (r: Option<StackQuery>)
    ensures
        is_stack_query(
            r,
            match call_text {
                Some(t) => Some(t@),
                None => None,
            },
            last_line,
        ),
{
    let call_text: Option<String> = match call_text {
        Some(t) => Some(t.clone()),
        None => None,
    };
    match last_line {
        None => Some(StackQuery { call_text, last_line: None }),
        Some(line) => {
            if line < i32::MIN as i64 || line > i32::MAX as i64 {
                return None;
            }
            Some(StackQuery { call_text, last_line: Some(line as i32) })
        },
    }
}

/// The number of frames that have a source, from the innermost on, up to the first one
/// that has none. The innermost frame is the last one.
pub open spec fn sourced(infos: Seq<RFrame>) -> nat
    decreases infos.len(),
{
    if infos.len() == 0 || frame_source(infos.last()) is None {
        0
    } else {
        1 + sourced(infos.drop_last())
    }
}

/// What the console keeps of a debug session between prompts.
pub struct DebugState {
    pub is_debugging: bool,
    /// Whether code is being evaluated in the debug session without leaving it.
    pub transient_eval: bool,
    pub stopped_reason: Option<DebugStoppedReason>,
    pub last_stack: Vec<FrameInfoId>,
    pub call_text: Option<DebugCallText>,
    /// The last known start line of the topmost frame.
    pub last_line: Option<i64>,
    pub session_index: u32,
    pub selected_frame_id: Option<i64>,
    /// The next frame id. Ids are unique across all frames of a session.
    pub current_frame_id: i64,
}

/// What starting the debugger at a prompt comes to.
#[derive(Debug)]
pub enum DebugStart {
    /// The stack is the one shown already: only the variables are refreshed.
    Refresh,
    /// The stack is shown. A session that was left open is stopped first.
    Start { stop_first: bool, stack: Vec<FrameInfo> },
}

/// The frames of `all` that are shown.
pub open spec fn shown_stack(
    all: Seq<FrameInfo>,
    show: ShowHiddenFrames,
    reason: DebugStoppedReason,
) -> Seq<FrameInfo> {
    let user = if show.internal {
        all
    } else {
        without_condition_handling(all, reason)
    };
    if show.fenced {
        user
    } else {
        visible_frames(user)
    }
}

impl DebugState {
    /// The state of a console that has not debugged anything.
    pub fn new() -> (r: Self)
        ensures
            !r.is_debugging,
            !r.transient_eval,
            r.stopped_reason is None,
            r.last_stack@.len() == 0,
            r.call_text is None,
            r.last_line is None,
            r.session_index == 0,
            r.selected_frame_id is None,
            r.current_frame_id == 0,
    {
        Self {
            is_debugging: false,
            transient_eval: false,
            stopped_reason: None,
            last_stack: Vec::new(),
            call_text: None,
            last_line: None,
            session_index: 0,
            selected_frame_id: None,
            current_frame_id: 0,
        }
    }

    /// The text that tells R which expression of the topmost frame is next. Only
    /// output without a source position carries it.
    pub fn context_call_text(&self) -> (r: Option<&String>)
        ensures
            match self.call_text {
                Some(DebugCallText::Debug(text)) => r == Some(&text),
                _ => r is None,
            },
    {
        match &self.call_text {
            None => None,
            Some(DebugCallText::Debug(text)) => Some(text),
            Some(DebugCallText::DebugAt(_)) => None,
        }
    }

    /// What R is told when it is asked for the call stack. None if the last known line
    /// is no integer of R's.
    pub fn debug_r_stack_info(&self) -> (r: Option<StackQuery>)
        ensures
            is_stack_query(
                r,
                match self.call_text {
                    Some(DebugCallText::Debug(text)) => Some(text@),
                    _ => None,
                },
                self.last_line,
            ),
    {
        stack_query(self.context_call_text(), self.last_line)
    }

    /// The next frame id.
    pub fn debug_next_frame_id(&mut self) -> (id: i64)
        requires
            old(self).current_frame_id < i64::MAX,
        ensures
            id == old(self).current_frame_id,
            *final(self) == (DebugState {
                current_frame_id: (old(self).current_frame_id + 1) as i64,
                ..*old(self)
            }),
    {
        let id: i64 = self.current_frame_id;
        self.current_frame_id = self.current_frame_id + 1;
        id
    }

    /// The call stack, innermost frame first, from R's description of it, which
    /// is outermost first. Every frame gets a new id, up to and with the first one that
    /// has no source. Remembers the line of the topmost frame.
    pub fn debug_stack_info(&mut self, infos: Vec<RFrame>) -> (r: Result<
        Vec<FrameInfo>,
        &'static str,
    >)
        requires
            old(self).current_frame_id + infos@.len() <= i64::MAX,
            forall|i: int| 0 <= i < infos@.len() ==> (#[trigger] infos@[i]).end_column < i32::MAX,
        ensures
            is_stack_info(r, *final(self), *old(self), infos@),
    {
        let mut rest: Vec<RFrame> = infos;
        let mut out: Vec<FrameInfo> = Vec::new();
        let n: usize = rest.len();
        let ghost all = rest@;
        while rest.len() > 0
            invariant
                all == infos@,
                n == all.len(),
                out@.len() + rest@.len() == n,
                sourced(all) == out@.len() + sourced(rest@),
                rest@ == all.take(rest@.len() as int),
                old(self).current_frame_id + n <= i64::MAX,
                *self == (DebugState {
                    current_frame_id: (old(self).current_frame_id + out@.len()) as i64,
                    ..*old(self)
                }),
                forall|i: int| 0 <= i < all.len() ==> (#[trigger] all[i]).end_column < i32::MAX,
                forall|i: int|
                    n - out@.len() <= i < n ==> frame_source(#[trigger] all[i]) is Some,
                forall|k: int|
                    0 <= k < out@.len() ==> is_frame(
                        #[trigger] out@[k],
                        all[n - 1 - k],
                        (old(self).current_frame_id + k) as i64,
                    ),
            decreases rest@.len(),
        {
            let ghost last = rest@.len() - 1;
            let info: Option<RFrame> = rest.pop();
            assert(rest@ =~= all.take(last as int));
            assert(all.take(last + 1).drop_last() =~= rest@);
            if let Some(info) = info {
                assert(info == all[last as int]);
                let id: i64 = self.debug_next_frame_id();
                match as_frame_info(info, id) {
                    Ok(frame) => {
                        out.push(frame);
                    },
                    Err(message) => {
                        assert(frame_source(all[last as int]) is None);
                        return Err(message);
                    },
                }
            }
        }
        if out.len() > 0 {
            self.last_line = Some(out[0].start_line);
        }
        Ok(out)
    }

    /// Starts the debugger at a prompt where R stopped with `stack`.
    ///
    /// A transient evaluation that ends with the same stack leaves the session
    /// as it is. Whether the stack is the same is told from sources and
    /// positions, which may be the same by chance.
    pub fn debug_start(
        &mut self,
        stack: Vec<FrameInfo>,
        transient_eval: bool,
        show: ShowHiddenFrames,
        reason: &DebugStoppedReason,
    ) -> (r: DebugStart)
        requires
            stack@.len() <= u32::MAX,
            old(self).session_index < u32::MAX,
        ensures
            is_started(r, *final(self), *old(self), stack@, transient_eval, show, *reason),
    {
        let ids: Vec<FrameInfoId> = stack_id(&stack);
        let unchanged: bool = same_stack(&ids, &self.last_stack);
        if transient_eval && unchanged {
            return DebugStart::Refresh;
        }
        if transient_eval {
            self.debug_stop_session();
        }
        self.last_stack = ids;
        let mut shown: Vec<FrameInfo> = stack;
        let ghost all = shown@;
        if !show.internal {
            remove_condition_handling_frames(&mut shown, reason);
            proof {
                lemma_without_prefix_shorter(without_handler(all, *reason), error_frames());
                lemma_without_prefix_shorter(
                    without_prefix(without_handler(all, *reason), error_frames()),
                    warning_frames(),
                );
            }
        }
        if !show.fenced {
            remove_fenced_frames(&mut shown);
        }
        DebugStart::Start { stop_first: transient_eval, stack: shown }
    }

    /// Stops the debug session. The next session has another index, and no frame
    /// is selected.
    pub fn debug_stop_session(&mut self)
        requires
            old(self).session_index < u32::MAX,
        ensures
            *final(self) == (DebugState {
                session_index: (old(self).session_index + 1) as u32,
                selected_frame_id: None,
                ..*old(self)
            }),
    {
        self.session_index = self.session_index + 1;
        self.selected_frame_id = None;
    }

    /// Stops debugging, unless a transient evaluation is to return to the
    /// session. Returns whether the session was stopped.
    pub fn debug_stop(&mut self) -> (stopped: bool)
        requires
            old(self).session_index < u32::MAX,
        ensures
            is_stopped(stopped, *final(self), *old(self)),
    {
        if self.is_debugging && self.transient_eval {
            return false;
        }
        self.is_debugging = false;
        self.stopped_reason = None;
        self.last_stack = Vec::new();
        self.call_text = None;
        self.last_line = None;
        self.debug_stop_session();
        true
    }
}

proof fn lemma_without_prefix_shorter(stack: Seq<FrameInfo>, prefixes: Seq<Seq<char>>)
    ensures
        without_prefix(stack, prefixes).len() <= stack.len(),
    decreases prefixes.len(),
{
    if prefixes.len() > 0 && stack.len() > 0 && prefixes[0].is_prefix_of(stack[0].frame_name@) {
        lemma_without_prefix_shorter(stack.drop_first(), prefixes.drop_first());
    }
}

/// The name of the frame starts with that of a fence.
pub open spec fn is_sentinel(f: FrameInfo) -> bool {
    "..stacktraceon.."@.is_prefix_of(f.frame_name@) || "..stacktraceoff.."@.is_prefix_of(
        f.frame_name@,
    )
}

proof fn lemma_plain_frames(frames: Seq<FrameInfo>)
    requires
        forall|i: int| 0 <= i < frames.len() ==> !is_sentinel(#[trigger] frames[i]),
    ensures
        unfenced(frames, 0) == frames,
        balanced(frames, 0),
    decreases frames.len(),
{
    if frames.len() > 0 {
        let rest = frames.drop_first();
        assert forall|i: int| 0 <= i < rest.len() implies !is_sentinel(#[trigger] rest[i]) by {
            assert(rest[i] == frames[i + 1]);
        }
        lemma_plain_frames(rest);
        assert(!is_sentinel(frames[0]));
        assert(seq![frames[0]] + rest =~= frames);
    }
}

/// A stack without fences is shown as it is. Frames between a fence that hides and one
/// that shows again are hidden together with the fences, and the frames around them are
/// shown in their order.
pub proof fn law_only_fenced_frames_are_hidden(
    top: FrameInfo,
    before: Seq<FrameInfo>,
    on: FrameInfo,
    inner: Seq<FrameInfo>,
    off: FrameInfo,
    after: Seq<FrameInfo>,
)
    requires
        "..stacktraceon.."@.is_prefix_of(on.frame_name@),
        "..stacktraceoff.."@.is_prefix_of(off.frame_name@),
        forall|i: int| 0 <= i < before.len() ==> !is_sentinel(#[trigger] before[i]),
        forall|i: int| 0 <= i < inner.len() ==> !is_sentinel(#[trigger] inner[i]),
        forall|i: int| 0 <= i < after.len() ==> !is_sentinel(#[trigger] after[i]),
    ensures
        visible_frames(seq![top] + before) == seq![top] + before,
        visible_frames(seq![top] + before + (seq![on] + inner + seq![off] + after)) == seq![top]
            + before + after,
{
    lemma_plain_frames(before);
    lemma_plain_frames(inner);
    lemma_plain_frames(after);
    reveal_strlit("..stacktraceon..");
    reveal_strlit("..stacktraceoff..");
    assert(!("..stacktraceon.."@.is_prefix_of(off.frame_name@))) by {
        if "..stacktraceon.."@.is_prefix_of(off.frame_name@) {
            assert("..stacktraceon.."@[13] == off.frame_name@.subrange(0, 16)[13]);
            assert("..stacktraceoff.."@[13] == off.frame_name@.subrange(0, 17)[13]);
        }
    }
    let fenced = seq![on] + inner + seq![off] + after;
    law_fenced_region_hidden(on, inner, off, after);
    assert((seq![top] + before).drop_first() =~= before);
    assert((seq![top] + before + fenced).drop_first() =~= before + fenced);
    lemma_plain_start(before, fenced);
    assert(seq![top] + (before + after) =~= seq![top] + before + after);
}

proof fn lemma_plain_start(before: Seq<FrameInfo>, rest: Seq<FrameInfo>)
    requires
        forall|i: int| 0 <= i < before.len() ==> !is_sentinel(#[trigger] before[i]),
    ensures
        unfenced(before + rest, 0) == before + unfenced(rest, 0),
    decreases before.len(),
{
    if before.len() == 0 {
        assert(before + rest =~= rest);
        assert(before + unfenced(rest, 0) =~= unfenced(rest, 0));
    } else {
        let tail = before.drop_first();
        assert forall|i: int| 0 <= i < tail.len() implies !is_sentinel(#[trigger] tail[i]) by {
            assert(tail[i] == before[i + 1]);
        }
        lemma_plain_start(tail, rest);
        assert(!is_sentinel(before[0]));
        assert((before + rest).drop_first() =~= tail + rest);
        assert((before + rest)[0] == before[0]);
        assert(seq![before[0]] + (tail + unfenced(rest, 0)) =~= before + unfenced(rest, 0));
    }
}

/// The frames by which R handles a condition are taken off the top of the stack, and no
/// others: where R stopped at a step, the stack of the user is shown whole. Where it
/// stopped at a condition or a pause, the frame that stopped it goes first.
pub proof fn law_condition_frames_are_taken_off(
    handler: FrameInfo,
    error: FrameInfo,
    user: Seq<FrameInfo>,
    reason: DebugStoppedReason,
)
    requires
        user.len() > 0,
        !(".handleSimpleError()"@.is_prefix_of(user[0].frame_name@)),
        !("doWithOneRestart()"@.is_prefix_of(user[0].frame_name@)),
        ".handleSimpleError()"@.is_prefix_of(error.frame_name@),
    ensures
        reason is Step ==> without_condition_handling(user, reason) == user,
        !(reason is Step) ==> without_condition_handling(seq![handler] + user, reason) == user,
        !(reason is Step) ==> without_condition_handling(seq![handler, error] + user, reason)
            == user,
        reason is Step ==> without_condition_handling(seq![error] + user, reason) == user,
{
    assert((seq![handler] + user).drop_first() =~= user);
    assert((seq![handler, error] + user).drop_first() =~= seq![error] + user);
    assert((seq![error] + user).drop_first() =~= user);
    assert(error_frames()[0] == ".handleSimpleError()"@);
    assert(warning_frames()[0] == "doWithOneRestart()"@);
    assert(error_frames().drop_first().len() == 0);
    lemma_none_off(user);
}

proof fn lemma_none_off(user: Seq<FrameInfo>)
    requires
        user.len() > 0,
        !(".handleSimpleError()"@.is_prefix_of(user[0].frame_name@)),
        !("doWithOneRestart()"@.is_prefix_of(user[0].frame_name@)),
    ensures
        without_prefix(user, error_frames()) == user,
        without_prefix(user, error_frames().drop_first()) == user,
        without_prefix(user, warning_frames()) == user,
{
    assert(error_frames()[0] == ".handleSimpleError()"@);
    assert(warning_frames()[0] == "doWithOneRestart()"@);
    assert(error_frames().drop_first().len() == 0);
}

/// What the user asks to see: all frames, or the stack without the frames by which R
/// handles conditions, without the fenced ones, or without either.
pub proof fn law_what_the_user_asks_to_see(
    all: Seq<FrameInfo>,
    show: ShowHiddenFrames,
    reason: DebugStoppedReason,
)
    ensures
        show.internal && show.fenced ==> shown_stack(all, show, reason) == all,
        show.internal && !show.fenced ==> shown_stack(all, show, reason) == visible_frames(all),
        !show.internal && show.fenced ==> shown_stack(all, show, reason)
            == without_condition_handling(all, reason),
        !show.internal && !show.fenced ==> shown_stack(all, show, reason) == visible_frames(
            without_condition_handling(all, reason),
        ),
{
}

/// Frames are taken for the same by where they stand: by their source and the range in
/// it, whatever their names and ids.
pub proof fn law_frames_are_told_by_place(a: FrameInfo, b: FrameInfo)
    ensures
        a.spec_id() == b.spec_id() <==> a.source@ == b.source@ && a.start_line == b.start_line
            && a.start_column == b.start_column && a.end_line == b.end_line && a.end_column
            == b.end_column,
{
}

/// The source of a frame is its text if R gave one, and else its file.
pub proof fn law_source_of_a_frame(info: RFrame)
    ensures
        info.text matches Some(t) ==> frame_source(info) == Some(FrameSource::Text(t)),
        info.text is None && info.file is Some ==> frame_source(info) == Some(
            FrameSource::File(info.file->0),
        ),
        info.text is None && info.file is None ==> frame_source(info) is None,
{
}

/// R is told of the call and the line as they are known.
pub proof fn law_what_r_is_told(
    r: Option<StackQuery>,
    call_text: Option<Seq<char>>,
    last_line: Option<i64>,
)
    requires
        is_stack_query(r, call_text, last_line),
        last_line matches Some(l) ==> i32::MIN <= l <= i32::MAX,
    ensures
        r is Some,
        text::opt_text(r->0.call_text) == call_text,
        last_line is None <==> r->0.last_line is None,
        last_line matches Some(l) ==> r->0.last_line->0 == l,
{
}

/// What comes of a prompt where R stopped.
pub open spec fn is_started(
    r: DebugStart,
    new: DebugState,
    old: DebugState,
    stack: Seq<FrameInfo>,
    transient_eval: bool,
    show: ShowHiddenFrames,
    reason: DebugStoppedReason,
) -> bool {
    &&& r is Refresh <==> transient_eval && stack_ids(stack) == id_models(
        old.last_stack@,
    )
    &&& r is Refresh ==> new == old
    &&& r matches DebugStart::Start { stop_first, stack: shown } ==> {
        &&& stop_first == transient_eval
        &&& shown@ == shown_stack(stack, show, reason)
        &&& id_models(new.last_stack@) == stack_ids(stack)
        &&& new == (DebugState {
            last_stack: new.last_stack,
            session_index: if transient_eval {
                (old.session_index + 1) as u32
            } else {
                old.session_index
            },
            selected_frame_id: if transient_eval {
                None
            } else {
                old.selected_frame_id
            },
            ..old
        })
    }
}

/// A prompt after a transient evaluation that left the stack as it was changes nothing. Any
/// other prompt starts the debugger with the stack, after the session before it was stopped
/// if the evaluation was transient.
pub proof fn law_prompts_start_the_debugger(
    r: DebugStart,
    new: DebugState,
    old: DebugState,
    stack: Seq<FrameInfo>,
    transient_eval: bool,
    show: ShowHiddenFrames,
    reason: DebugStoppedReason,
)
    requires
        is_started(r, new, old, stack, transient_eval, show, reason),
        old.session_index < u32::MAX,
    ensures
        !transient_eval ==> r is Start,
        transient_eval && stack.len() == old.last_stack@.len() && (forall|i: int|
            0 <= i < stack.len() ==> (#[trigger] stack[i]).spec_id() == old.last_stack@[i]@) ==> r
            is Refresh,
        r is Refresh ==> new == old && stack.len() == old.last_stack@.len() && forall|i: int|
            0 <= i < stack.len() ==> (#[trigger] stack[i]).spec_id() == old.last_stack@[i]@,
        r matches DebugStart::Start { stop_first, stack: shown } ==> {
            &&& stop_first == transient_eval
            &&& shown@ == shown_stack(stack, show, reason)
            &&& new.last_stack@.len() == stack.len()
            &&& forall|i: int|
                0 <= i < stack.len() ==> (#[trigger] stack[i]).spec_id() == new.last_stack@[i]@
            &&& transient_eval ==> new.session_index == old.session_index + 1
                && new.selected_frame_id is None
            &&& !transient_eval ==> new.session_index == old.session_index
                && new.selected_frame_id == old.selected_frame_id
            &&& new.stopped_reason == old.stopped_reason
            &&& new.last_line == old.last_line
        },
{
    if stack.len() == old.last_stack@.len() && (forall|i: int|
        0 <= i < stack.len() ==> (#[trigger] stack[i]).spec_id() == old.last_stack@[i]@) {
        assert(stack_ids(stack) =~= id_models(old.last_stack@));
    }
    if r is Refresh {
        assert(stack_ids(stack).len() == id_models(old.last_stack@).len());
        assert forall|i: int| 0 <= i < stack.len() implies (#[trigger] stack[i]).spec_id()
            == old.last_stack@[i]@ by {
            assert(stack_ids(stack)[i] == id_models(old.last_stack@)[i]);
        }
    } else {
        assert(stack_ids(stack).len() == id_models(new.last_stack@).len());
        assert forall|i: int| 0 <= i < stack.len() implies (#[trigger] stack[i]).spec_id()
            == new.last_stack@[i]@ by {
            assert(stack_ids(stack)[i] == id_models(new.last_stack@)[i]);
        }
    }
}

/// Frames are told from the innermost one on, up to the first one that has no source.
pub proof fn law_frames_with_a_source(infos: Seq<RFrame>, n: int)
    requires
        0 <= n <= infos.len(),
        forall|i: int|
            infos.len() - n <= i < infos.len() ==> frame_source(#[trigger] infos[i]) is Some,
        n < infos.len() ==> frame_source(infos[infos.len() - n - 1]) is None,
    ensures
        sourced(infos) == n,
    decreases n,
{
    if n > 0 {
        assert(frame_source(infos[infos.len() - 1]) is Some);
        let fewer = infos.drop_last();
        assert forall|i: int| fewer.len() - (n - 1) <= i < fewer.len() implies frame_source(
            #[trigger] fewer[i],
        ) is Some by {
            assert(fewer[i] == infos[i]);
        }
        law_frames_with_a_source(fewer, n - 1);
    }
}

/// What leaving the debugger comes to.
pub open spec fn is_stopped(stopped: bool, new: DebugState, old: DebugState) -> bool {
    &&& stopped == !(old.is_debugging && old.transient_eval)
    &&& !stopped ==> new == old
    &&& stopped ==> {
        &&& new.last_stack@.len() == 0
        &&& new == (DebugState {
            is_debugging: false,
            stopped_reason: None,
            last_stack: new.last_stack,
            call_text: None,
            last_line: None,
            session_index: (old.session_index + 1) as u32,
            selected_frame_id: None,
            ..old
        })
    }
}

/// The call stack from R's description of it, and what is then known.
pub open spec fn is_stack_info(
    r: Result<Vec<FrameInfo>, &'static str>,
    new: DebugState,
    old: DebugState,
    infos: Seq<RFrame>,
) -> bool {
    &&& r is Ok <==> forall|i: int|
        0 <= i < infos.len() ==> frame_source(#[trigger] infos[i]) is Some
    &&& r matches Ok(stack) ==> {
        &&& stack@.len() == infos.len()
        &&& forall|k: int|
            0 <= k < stack@.len() ==> is_frame(
                #[trigger] stack@[k],
                infos[infos.len() - 1 - k],
                (old.current_frame_id + k) as i64,
            )
        &&& new == (DebugState {
            current_frame_id: (old.current_frame_id + infos.len()) as i64,
            last_line: if stack@.len() > 0 {
                Some(stack@[0].start_line)
            } else {
                old.last_line
            },
            ..old
        })
    }
    &&& r matches Err(message) ==> message@
        == "Expected either `file` or `text` to be non-`NULL`."@ && new == (
    DebugState { current_frame_id: new.current_frame_id, ..old })
        && new.current_frame_id == old.current_frame_id + sourced(infos) + 1
}

/// Code that is evaluated in the debugger without leaving it does not stop the debugger.
/// Otherwise all that is known of the stop is forgotten, and the session ends.
pub proof fn law_leaving_the_debugger(stopped: bool, new: DebugState, old: DebugState)
    requires
        is_stopped(stopped, new, old),
        old.session_index < u32::MAX,
    ensures
        !stopped <==> old.is_debugging && old.transient_eval,
        !stopped ==> new == old,
        stopped ==> !new.is_debugging && new.stopped_reason is None && new.last_stack@.len() == 0
            && new.call_text is None && new.last_line is None && new.selected_frame_id is None
            && new.session_index == old.session_index + 1 && new.transient_eval
            == old.transient_eval && new.current_frame_id == old.current_frame_id,
{
}

/// R tells its stack from the outermost frame to the innermost one. It is known the other way
/// round, each frame with an id of its own, from the next free one on. The line of the
/// innermost frame is remembered. A frame without a source makes it fail.
pub proof fn law_stacks_are_told_innermost_first(
    r: Result<Vec<FrameInfo>, &'static str>,
    new: DebugState,
    old: DebugState,
    infos: Seq<RFrame>,
    k: int,
)
    requires
        is_stack_info(r, new, old, infos),
        old.current_frame_id + infos.len() <= i64::MAX,
        0 <= k < infos.len(),
    ensures
        r matches Ok(stack) ==> {
            &&& stack@.len() == infos.len()
            &&& is_frame(stack@[infos.len() - 1 - k], infos[k], (old.current_frame_id
                + infos.len() - 1 - k) as i64)
            &&& new.last_line == Some(stack@[0].start_line)
            &&& new.current_frame_id == old.current_frame_id + infos.len()
            &&& new.last_stack == old.last_stack
            &&& new.session_index == old.session_index
        },
        frame_source(infos[k]) is None ==> r is Err,
        r matches Err(m) ==> m@ == "Expected either `file` or `text` to be non-`NULL`."@
            && new.last_line == old.last_line && new.last_stack == old.last_stack,
        (forall|i: int| 0 <= i < infos.len() ==> frame_source(#[trigger] infos[i]) is Some) ==> r
            is Ok,
{
    if r is Ok {
        let stack = r->Ok_0;
        assert(is_frame(
            stack@[infos.len() - 1 - k],
            infos[infos.len() - 1 - (infos.len() - 1 - k)],
            (old.current_frame_id + (infos.len() - 1 - k)) as i64,
        ));
    }
}

} // verus!
