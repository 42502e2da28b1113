//! The raw log of a session and its rotation. Raw pane output is persisted in
//! full, outside of whatever is told to the decide loop, so its size and the
//! number of old files are bounded.
use crate::text;
use crate::types::LogRotationConfig;
use vstd::prelude::*;

verus! {

/// A file of the log: the one that is written to, or a rotated one by its
/// number.
#[derive(Debug, Clone, Copy, PartialEq, Eq, Structural)]
pub enum LogFile {
    Live,
    Numbered { n: u32 },
}

/// One operation of a rotation. It is skipped where its file does not exist.
#[derive(Debug, Clone, Copy, PartialEq, Eq, Structural)]
pub enum RotationStep {
    Remove { file: LogFile },
    Rename { from: LogFile, to: LogFile },
}

/// How a text is written: after a rotation as the start of a new file, or at the
/// end of the one that is there.
#[derive(Debug)]
pub enum AppendPlan {
    Append,
    Rotate { steps: Vec<RotationStep> },
}

/// The size of a text in the file.
pub open spec fn size(content: Seq<char>) -> nat {
    vstd::utf8::encode_utf8(content).len()
}

/// The text would take a file that is not empty past the limit.
pub open spec fn needs_rotation(
    current_size: nat,
    content_size: nat,
    config: LogRotationConfig,
) -> bool {
    current_size > 0 && current_size + content_size > config.max_bytes
}

/// The renames that make room for number `n` and lower ones, the highest first.
pub open spec fn shifts(n: nat) -> Seq<RotationStep>
    decreases n,
{
    if n == 0 {
        seq![RotationStep::Rename { from: LogFile::Live, to: LogFile::Numbered { n: 1 } }]
    } else {
        seq![
            RotationStep::Rename {
                from: LogFile::Numbered { n: n as u32 },
                to: LogFile::Numbered { n: (n + 1) as u32 },
            },
        ] + shifts((n - 1) as nat)
    }
}

/// The oldest file is removed and every other moves up by one.
pub open spec fn rotation_steps(max_files: u32) -> Seq<RotationStep> {
    seq![RotationStep::Remove { file: LogFile::Numbered { n: max_files } }] + shifts(
        if max_files == 0 {
            0
        } else {
            (max_files - 1) as nat
        },
    )
}

/// What stands behind the path of a rotated file.
pub open spec fn suffix(n: nat) -> Seq<char> {
    "."@ + text::decimal(n)
}

/// What stands behind the path of the rotated file with this number.
pub fn numbered_suffix(n: u32) -> (r: String)
    ensures
        r@ == suffix(n as nat),
        r@ == "."@ + text::decimal(n as nat),
{
    text::concat2(".", text::decimal_text(n as u128).as_str())
}

/// The steps that rotate the log.
pub fn rotate(max_files: u32) -> (r: Vec<RotationStep>)
    ensures
        r@ == rotation_steps(max_files),
{
    let mut steps: Vec<RotationStep> = Vec::new();
    steps.push(RotationStep::Remove { file: LogFile::Numbered { n: max_files } });
    let mut i: u32 = if max_files == 0 {
        0
    } else {
        max_files - 1
    };
    while i > 0
        invariant
            i < max_files || i == 0,
            rotation_steps(max_files) == steps@ + shifts(i as nat),
        decreases i,
    {
        let step = RotationStep::Rename {
            from: LogFile::Numbered { n: i },
            to: LogFile::Numbered { n: i + 1 },
        };
        proof {
            assert(steps@ + shifts(i as nat) =~= steps@.push(step) + shifts((i - 1) as nat));
        }
        steps.push(step);
        i -= 1;
    }
    steps.push(RotationStep::Rename { from: LogFile::Live, to: LogFile::Numbered { n: 1 } });
    proof {
        assert(steps@ =~= rotation_steps(max_files));
    }
    steps
}

/// Plans how a text is added to a log whose file has the given size, which is 0
/// where there is none.
pub fn append_with_rotation(current_size: u64, content: &str, config: &LogRotationConfig) -> (r:
    AppendPlan)
    requires
        current_size + size(content@) <= u64::MAX,
    ensures
        match r {
            AppendPlan::Append => !needs_rotation(current_size as nat, size(content@), *config),
            AppendPlan::Rotate { steps } => needs_rotation(
                current_size as nat,
                size(content@),
                *config,
            ) && steps@ == rotation_steps(config.max_files),
        },
        r is Rotate <==> current_size > 0 && current_size + vstd::utf8::encode_utf8(
            content@,
        ).len() > config.max_bytes,
{
    let content_bytes: u64 = content.as_bytes().len() as u64;
    if current_size > 0 && current_size + content_bytes > config.max_bytes {
        AppendPlan::Rotate { steps: rotate(config.max_files) }
    } else {
        AppendPlan::Append
    }
}

/// The files after one step.
pub open spec fn after_step(files: Map<LogFile, Seq<u8>>, step: RotationStep) -> Map<
    LogFile,
    Seq<u8>,
> {
    match step {
        RotationStep::Remove { file } => files.remove(file),
        RotationStep::Rename { from, to } => if files.contains_key(from) {
            files.remove(from).insert(to, files[from])
        } else {
            files
        },
    }
}

/// The files after some steps.
pub open spec fn after_steps(files: Map<LogFile, Seq<u8>>, steps: Seq<RotationStep>) -> Map<
    LogFile,
    Seq<u8>,
>
    decreases steps.len(),
{
    if steps.len() == 0 {
        files
    } else {
        after_steps(after_step(files, steps.first()), steps.drop_first())
    }
}

/// The size of the file that is written to, 0 where there is none.
pub open spec fn live_size(files: Map<LogFile, Seq<u8>>) -> nat {
    if files.contains_key(LogFile::Live) {
        files[LogFile::Live].len()
    } else {
        0
    }
}

/// The files after a text was added to the log.
pub open spec fn appended(
    files: Map<LogFile, Seq<u8>>,
    data: Seq<u8>,
    config: LogRotationConfig,
) -> Map<LogFile, Seq<u8>> {
    if needs_rotation(live_size(files), data.len(), config) {
        after_steps(files, rotation_steps(config.max_files)).insert(LogFile::Live, data)
    } else if files.contains_key(LogFile::Live) {
        files.insert(LogFile::Live, files[LogFile::Live] + data)
    } else {
        files.insert(LogFile::Live, data)
    }
}

/// What a file holds, if it is there.
pub open spec fn held(files: Map<LogFile, Seq<u8>>, file: LogFile) -> Option<Seq<u8>> {
    if files.contains_key(file) {
        Some(files[file])
    } else {
        None
    }
}

/// The renames move every file from number `n` down one place up, where the
/// place above them is free.
proof fn shifts_move_up(files: Map<LogFile, Seq<u8>>, n: nat)
    requires
        n < u32::MAX,
        !files.contains_key(LogFile::Numbered { n: (n + 1) as u32 }),
    ensures
        ({
            let after = after_steps(files, shifts(n));
            &&& !after.contains_key(LogFile::Live)
            &&& held(after, LogFile::Numbered { n: 1 }) == held(files, LogFile::Live)
            &&& forall|k: u32|
                2 <= k <= n + 1 ==> (#[trigger] held(after, LogFile::Numbered { n: k })) == held(
                    files,
                    LogFile::Numbered { n: (k - 1) as u32 },
                )
            &&& forall|k: u32|
                k == 0 || k > n + 1 ==> (#[trigger] held(after, LogFile::Numbered { n: k }))
                    == held(files, LogFile::Numbered { n: k })
        }),
    decreases n,
{
    let steps = shifts(n);
    let next = after_step(files, steps.first());
    reveal_with_fuel(after_steps, 2);
    if n > 0 {
        assert(steps.drop_first() =~= shifts((n - 1) as nat));
        shifts_move_up(next, (n - 1) as nat);
    } else {
        assert(steps.drop_first().len() == 0);
    }
}

/// A rotation moves the log to number 1 and every rotated file up by one; the
/// one with the highest number is dropped, and nothing else is touched.
pub proof fn rotation_moves_everything_up(files: Map<LogFile, Seq<u8>>, max_files: u32)
    requires
        max_files > 0,
    ensures
        ({
            let after = after_steps(files, rotation_steps(max_files));
            &&& !after.contains_key(LogFile::Live)
            &&& held(after, LogFile::Numbered { n: 1 }) == held(files, LogFile::Live)
            &&& forall|k: u32|
                2 <= k <= max_files ==> (#[trigger] held(after, LogFile::Numbered { n: k }))
                    == held(files, LogFile::Numbered { n: (k - 1) as u32 })
            &&& forall|k: u32|
                k == 0 || k > max_files ==> (#[trigger] held(after, LogFile::Numbered { n: k }))
                    == held(files, LogFile::Numbered { n: k })
        }),
{
    let steps = rotation_steps(max_files);
    assert(steps.drop_first() =~= shifts((max_files - 1) as nat));
    shifts_move_up(files.remove(LogFile::Numbered { n: max_files }), (max_files - 1) as nat);
}

/// The number of rotated files stays within the limit.
pub proof fn rotated_files_stay_within_the_limit(
    files: Map<LogFile, Seq<u8>>,
    data: Seq<u8>,
    config: LogRotationConfig,
)
    requires
        config.max_files > 0,
        forall|k: u32|
            (#[trigger] files.contains_key(LogFile::Numbered { n: k })) ==> 1 <= k
                <= config.max_files,
    ensures
        forall|k: u32|
            (#[trigger] appended(files, data, config).contains_key(LogFile::Numbered { n: k }))
                ==> 1 <= k <= config.max_files,
{
    rotation_moves_everything_up(files, config.max_files);
    let after = after_steps(files, rotation_steps(config.max_files));
    assert forall|k: u32|
        (#[trigger] appended(files, data, config).contains_key(
            LogFile::Numbered { n: k },
        )) implies 1 <= k <= config.max_files by {
        if needs_rotation(live_size(files), data.len(), config) {
            assert(held(after, LogFile::Numbered { n: k }) is Some);
        }
    }
}

/// The log never grows past its limit, except by a single text that is itself
/// larger; and what was written last always stands at its end.
pub proof fn log_stays_within_its_size(
    files: Map<LogFile, Seq<u8>>,
    data: Seq<u8>,
    config: LogRotationConfig,
)
    ensures
        appended(files, data, config).contains_key(LogFile::Live),
        appended(files, data, config)[LogFile::Live].len() <= config.max_bytes || appended(
            files,
            data,
            config,
        )[LogFile::Live] == data,
        data.is_suffix_of(appended(files, data, config)[LogFile::Live]),
{
    let live = appended(files, data, config)[LogFile::Live];
    if live_size(files) == 0 && files.contains_key(LogFile::Live) {
        assert(files[LogFile::Live] + data =~= data);
    }
    assert(live.subrange(live.len() - data.len(), live.len() as int) =~= data);
}

/// What a file holds, nothing where it is missing.
pub open spec fn bytes_of(files: Map<LogFile, Seq<u8>>, file: LogFile) -> Seq<u8> {
    match held(files, file) {
        Some(data) => data,
        None => Seq::empty(),
    }
}

/// What the rotated files up to number `n` hold, the oldest first.
pub open spec fn rotated(files: Map<LogFile, Seq<u8>>, n: nat) -> Seq<u8>
    decreases n,
{
    if n == 0 {
        Seq::empty()
    } else {
        bytes_of(files, LogFile::Numbered { n: n as u32 }) + rotated(files, (n - 1) as nat)
    }
}

/// What was logged, the oldest first, as far back as rotated file number `n`.
pub open spec fn history(files: Map<LogFile, Seq<u8>>, n: nat) -> Seq<u8> {
    rotated(files, n) + bytes_of(files, LogFile::Live)
}

/// What was logged is read back in order: a text comes behind everything that is
/// kept, and only a rotation drops something, namely the oldest file.
pub proof fn logged_text_stays_in_order(
    files: Map<LogFile, Seq<u8>>,
    data: Seq<u8>,
    config: LogRotationConfig,
)
    requires
        config.max_files > 0,
    ensures
        history(appended(files, data, config), config.max_files as nat) == if needs_rotation(
            live_size(files),
            data.len(),
            config,
        ) {
            history(files, (config.max_files - 1) as nat) + data
        } else {
            history(files, config.max_files as nat) + data
        },
{
    let max = config.max_files as nat;
    let all = appended(files, data, config);
    if needs_rotation(live_size(files), data.len(), config) {
        let after = after_steps(files, rotation_steps(config.max_files));
        rotation_moves_everything_up(files, config.max_files);
        rotated_moved_up(files, after, max, max);
        same_rotated(after, all, max);
        assert(history(all, max) =~= history(files, (max - 1) as nat) + data);
    } else {
        same_rotated(files, all, max);
        assert(history(all, max) =~= history(files, max) + data);
    }
}

/// Moving everything up by one moves the newest file in behind the older ones.
proof fn rotated_moved_up(
    files: Map<LogFile, Seq<u8>>,
    after: Map<LogFile, Seq<u8>>,
    max: nat,
    k: nat,
)
    requires
        1 <= k <= max <= u32::MAX,
        held(after, LogFile::Numbered { n: 1 }) == held(files, LogFile::Live),
        forall|j: u32|
            2 <= j <= max ==> (#[trigger] held(after, LogFile::Numbered { n: j })) == held(
                files,
                LogFile::Numbered { n: (j - 1) as u32 },
            ),
    ensures
        rotated(after, k) == history(files, (k - 1) as nat),
    decreases k,
{
    if k == 1 {
        assert(rotated(after, 0) =~= Seq::empty());
        assert(rotated(after, 1) =~= history(files, 0));
    } else {
        rotated_moved_up(files, after, max, (k - 1) as nat);
        assert(held(after, LogFile::Numbered { n: k as u32 }) == held(
            files,
            LogFile::Numbered { n: (k - 1) as u32 },
        ));
        assert(rotated(after, k) =~= history(files, (k - 1) as nat));
    }
}

/// The file that is written to does not count among the rotated ones.
proof fn same_rotated(a: Map<LogFile, Seq<u8>>, b: Map<LogFile, Seq<u8>>, n: nat)
    requires
        forall|k: u32|
            (#[trigger] held(b, LogFile::Numbered { n: k })) == held(
                a,
                LogFile::Numbered { n: k },
            ),
    ensures
        rotated(a, n) == rotated(b, n),
    decreases n,
{
    if n > 0 {
        same_rotated(a, b, (n - 1) as nat);
        assert(held(b, LogFile::Numbered { n: n as u32 }) == held(
            a,
            LogFile::Numbered { n: n as u32 },
        ));
    }
}

/// The steps of a rotation: first the oldest file goes, then every rotated file
/// moves up by one, the highest number first, and last the log becomes number 1.
pub proof fn rotation_runs_from_the_oldest_down(max_files: u32)
    ensures
        rotation_steps(max_files).len() == if max_files == 0 {
            2
        } else {
            max_files + 1
        },
        rotation_steps(max_files)[0] == (RotationStep::Remove {
            file: LogFile::Numbered { n: max_files },
        }),
        rotation_steps(max_files).last() == (RotationStep::Rename {
            from: LogFile::Live,
            to: LogFile::Numbered { n: 1 },
        }),
        forall|i: int|
            1 <= i < max_files ==> #[trigger] rotation_steps(max_files)[i]
                == (RotationStep::Rename {
                from: LogFile::Numbered { n: (max_files - i) as u32 },
                to: LogFile::Numbered { n: (max_files - i + 1) as u32 },
            }),
{
    shifts_run_down(
        if max_files == 0 {
            0
        } else {
            (max_files - 1) as nat
        },
    );
    let n = if max_files == 0 {
        0
    } else {
        (max_files - 1) as nat
    };
    assert forall|i: int| 1 <= i < max_files implies #[trigger] rotation_steps(max_files)[i]
        == (RotationStep::Rename {
        from: LogFile::Numbered { n: (max_files - i) as u32 },
        to: LogFile::Numbered { n: (max_files - i + 1) as u32 },
    }) by {
        assert(rotation_steps(max_files)[i] == shifts(n)[i - 1]);
    }
}

/// The renames one by one.
proof fn shifts_run_down(n: nat)
    ensures
        shifts(n).len() == n + 1,
        shifts(n).last() == (RotationStep::Rename {
            from: LogFile::Live,
            to: LogFile::Numbered { n: 1 },
        }),
        forall|i: int|
            0 <= i < n ==> #[trigger] shifts(n)[i] == (RotationStep::Rename {
                from: LogFile::Numbered { n: (n - i) as u32 },
                to: LogFile::Numbered { n: (n - i + 1) as u32 },
            }),
    decreases n,
{
    if n > 0 {
        let fewer = (n - 1) as nat;
        shifts_run_down(fewer);
        assert forall|i: int| 0 <= i < n implies #[trigger] shifts(n)[i] == (RotationStep::Rename {
            from: LogFile::Numbered { n: (n - i) as u32 },
            to: LogFile::Numbered { n: (n - i + 1) as u32 },
        }) by {
            if i > 0 {
                assert(shifts(n)[i] == shifts(fewer)[i - 1]);
            }
        }
    }
}

/// A text that fits goes behind what the log holds and touches no other file; the
/// log is rotated only where it holds something and the text would take it past the
/// limit, and then starts anew with the text.
pub proof fn rotation_only_when_it_would_overflow(
    files: Map<LogFile, Seq<u8>>,
    data: Seq<u8>,
    config: LogRotationConfig,
)
    ensures
        !files.contains_key(LogFile::Live) ==> appended(files, data, config) == files.insert(
            LogFile::Live,
            data,
        ),
        files.contains_key(LogFile::Live) && (files[LogFile::Live].len() == 0
            || files[LogFile::Live].len() + data.len() <= config.max_bytes) ==> appended(
            files,
            data,
            config,
        ) == files.insert(LogFile::Live, files[LogFile::Live] + data),
        files.contains_key(LogFile::Live) && files[LogFile::Live].len() > 0
            && files[LogFile::Live].len() + data.len() > config.max_bytes ==> appended(
            files,
            data,
            config,
        )[LogFile::Live] == data,
        files.contains_key(LogFile::Live) && files[LogFile::Live].len() > 0
            && files[LogFile::Live].len() + data.len() > config.max_bytes && config.max_files > 0
            ==> held(appended(files, data, config), LogFile::Numbered { n: 1 }) == Some(
            files[LogFile::Live],
        ),
{
    if config.max_files > 0 {
        rotation_moves_everything_up(files, config.max_files);
    }
}

} // verus!
