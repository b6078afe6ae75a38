use kaku_sftp::job::{kept_mode, open_mode, resume_from, Job, JobAction};
use kaku_sftp::parallel::{merge_slices, slice_plan, ParallelAction, ParallelJob, SliceEnd};
use kaku_sftp::publish::{Publish, PublishAction};
use kaku_sftp::stream::{
    slice_range, CopyAction, CopyStream, Reply, SliceAction, SliceCopy, Stat, CHUNK_SIZE,
};
use kaku_sftp::transfer::{
    Direction, HelperPlan, TransferError, TransferEvent, TransferManager, TransferState, WorkerJob,
    EVENT_CHANNEL_CAPACITY, MAX_CONCURRENT_TRANSFERS,
};
use kaku_sftp::units::{format_bytes, TransferHistory};

#[test]
fn slice_ranges_tile_the_file_without_gaps() {
    for (total, workers) in [
        (0u64, 1usize),
        (1, 1),
        (1, 4),
        (1000, 3),
        (16 * 1024 * 1024, 4),
        (16 * 1024 * 1024 + 1, 4),
    ] {
        let covered: Vec<(u64, u64)> = (0..workers)
            .map(|i| {
                let (start, len) = slice_range(total, workers, i);
                (start, start + len)
            })
            .collect();
        assert_eq!(covered[0].0, 0, "first slice must start at 0");
        for pair in covered.windows(2) {
            assert_eq!(pair[0].1, pair[1].0, "gap or overlap in {total}/{workers}");
        }
        assert_eq!(
            covered.last().unwrap().1,
            total,
            "last slice must reach the end of {total}/{workers}"
        );
    }
}

#[test]
fn format_bytes_uses_sensible_units() {
    assert_eq!(format_bytes(0), "0 B");
    assert_eq!(format_bytes(512), "512 B");
    assert_eq!(format_bytes(1024), "1.0 KB");
    assert_eq!(format_bytes(1024 * 1024 + 400 * 1024), "1.4 MB");
    assert_eq!(format_bytes(3 * 1024 * 1024 * 1024), "3.0 GB");
}

/// The number is rounded as the floating-point quotient is printed.
#[test]
fn byte_counts_read_like_the_quotient() {
    let units = ["B", "KB", "MB", "GB", "TB", "PB"];
    let mut samples: Vec<u64> = vec![0, 1, 1023, 1024, 1025, 1075, 1076, 1_126, 1_177, u64::MAX];
    for shift in 0..64u32 {
        let base = 1u64 << shift;
        for delta in [0u64, 1, 3, 51, 52, 77] {
            samples.push(base.wrapping_add(delta));
            samples.push(base.wrapping_sub(delta));
            samples.push(base.wrapping_mul(21).wrapping_add(delta) / 20);
        }
    }
    for bytes in samples {
        let mut value = bytes as f64;
        let mut unit = 0;
        while value >= 1024.0 && unit < units.len() - 1 {
            value /= 1024.0;
            unit += 1;
        }
        let expected = if unit == 0 {
            format!("{bytes} B")
        } else {
            format!("{value:.1} {}", units[unit])
        };
        assert_eq!(format_bytes(bytes), expected, "{bytes}");
    }
}

/// Drive a copy over bytes in memory.
fn copy(source: &[u8], reads: usize, cancel_after: usize) -> (Vec<u8>, Vec<u64>, Result<(), TransferError>) {
    let mut sink = Vec::new();
    let mut seen = Vec::new();
    let mut at = 0;
    let mut count = 0;
    let mut cancelled = false;
    let mut stream = CopyStream::new(0, false, 0);
    loop {
        match stream.action() {
            CopyAction::Read(max) => {
                count += 1;
                if count >= cancel_after {
                    cancelled = true;
                }
                let n = (source.len() - at).min(max).min(reads);
                at += n;
                stream.feed(&Reply::Bytes(n), cancelled, 0);
            }
            CopyAction::Write(n) => {
                sink.extend_from_slice(&source[at - n..at]);
                stream.feed(&Reply::Done, cancelled, 0);
            }
            CopyAction::Report(bytes) => {
                seen.push(bytes);
                stream.feed(&Reply::Done, cancelled, 0);
            }
            CopyAction::Finish(r) => return (sink, seen, r),
        }
    }
}

#[test]
fn copy_stream_moves_all_data_and_reports_final_progress() {
    let payload: Vec<u8> = (0..(CHUNK_SIZE as u32 * 3 + 123)).map(|i| (i % 251) as u8).collect();
    let (sink, seen, result) = copy(&payload, usize::MAX, usize::MAX);
    result.unwrap();
    assert_eq!(sink.len(), payload.len());
    assert_eq!(sink, payload);
    assert_eq!(seen.last(), Some(&(payload.len() as u64)));
}

#[test]
fn copy_stream_stops_when_cancelled() {
    let payload = vec![7u8; 1024];
    let (sink, seen, result) = copy(&payload, 16, 2);
    assert!(matches!(result.unwrap_err(), TransferError::Cancelled));
    // Two 16-byte reads landed before the cancel took effect.
    assert_eq!(sink.len(), 32);
    assert!(sink.iter().all(|&b| b == 7));
    // Mid-loop progress was throttled away and the cancelled return skips
    // the final emit; the terminal state reports it.
    assert!(seen.is_empty());
}

#[test]
fn copy_stream_propagates_write_errors() {
    let mut stream = CopyStream::new(0, false, 0);
    assert!(matches!(stream.action(), CopyAction::Read(_)));
    stream.feed(&Reply::Bytes(5), false, 0);
    assert!(matches!(stream.action(), CopyAction::Write(5)));
    stream.feed(&Reply::Failed("sink unavailable".into()), false, 0);
    match stream.action() {
        CopyAction::Finish(Err(TransferError::Failed(text))) => assert_eq!(text, "sink unavailable"),
        other => panic!("{:?}", other),
    }
}

#[test]
fn a_stalled_copy_says_so() {
    let mut stream = CopyStream::new(0, false, 0);
    stream.feed(&Reply::TimedOut, false, 0);
    match stream.action() {
        CopyAction::Finish(Err(e)) => {
            assert_eq!(e.to_text(), "connection stalled (no data for 60s)")
        }
        other => panic!("{:?}", other),
    }
}

/// Answer every action of a job, and note the ones a server would see.
fn run(job: WorkerJob, size: u64, existing: bool) -> (Vec<JobAction>, Result<(), TransferError>) {
    let mut machine = Job::new(job);
    let mut trace = Vec::new();
    let mut read = false;
    loop {
        let action = machine.action();
        let reply = match &action {
            JobAction::Finish(_) => match action {
                JobAction::Finish(r) => return (trace, r),
                _ => unreachable!(),
            },
            JobAction::StatLocal { .. } => Reply::Stat(Stat { size: Some(size), mode: Some(0o644) }),
            JobAction::StatRemote { .. } => {
                if existing {
                    Reply::Stat(Stat { size: Some(1), mode: Some(0o644) })
                } else {
                    Reply::Failed("no such file".into())
                }
            }
            JobAction::Read { .. } => {
                if read {
                    Reply::Bytes(0)
                } else {
                    read = true;
                    Reply::Bytes(size as usize)
                }
            }
            _ => Reply::Done,
        };
        machine.feed(&reply, false, 0);
        trace.push(action);
    }
}

#[test]
fn an_upload_writes_a_part_and_publishes_it() {
    let job = WorkerJob::Upload {
        local: "/l/a.bin".into(),
        remote: "/r/a.bin".into(),
        resume: false,
        overwrite: true,
    };
    let (trace, result) = run(job, 4, false);
    result.unwrap();
    let open = trace.iter().position(|a| {
        matches!(a, JobAction::OpenRemoteWrite { path, append: false, .. } if path == "/r/.kaku-part.a.bin")
    });
    let rename = trace.iter().position(|a| {
        matches!(a, JobAction::RenameRemote { from, to } if from == "/r/.kaku-part.a.bin" && to == "/r/a.bin")
    });
    assert!(open.unwrap() < rename.unwrap());
}

#[test]
fn a_drop_refuses_to_replace_a_file() {
    let job = WorkerJob::Upload {
        local: "/l/a.bin".into(),
        remote: "/r/a.bin".into(),
        resume: false,
        overwrite: false,
    };
    let (trace, result) = run(job, 4, true);
    assert_eq!(
        result.unwrap_err().to_text(),
        "/r/a.bin already exists; drop it somewhere else or rename it"
    );
    assert!(!trace.iter().any(|a| matches!(a, JobAction::OpenRemoteWrite { .. })));
}

#[test]
fn modes_and_resume_points() {
    assert_eq!(open_mode(Some(0o100755)), 0o755);
    assert_eq!(open_mode(Some(0o044)), 0o600);
    assert_eq!(open_mode(None), 0o600);
    assert_eq!(kept_mode(Some(0o100700)), Some(0o700));
    assert_eq!(kept_mode(Some(0o100000)), None);
    assert_eq!(resume_from(Some(10), 20), 10);
    assert_eq!(resume_from(Some(20), 20), 0);
    assert_eq!(resume_from(None, 20), 0);
}

#[test]
fn publishing_moves_the_old_file_aside() {
    let mut p = Publish::new("/r/.part".into(), "/r/a".into());
    p.feed(Some("exists".into()));
    assert!(matches!(p.action(), PublishAction::Rename { from, to } if from == "/r/a" && to == "/r/a.kaku-old"));
    p.feed(None);
    assert!(matches!(p.action(), PublishAction::Rename { from, to } if from == "/r/.part" && to == "/r/a"));
    p.feed(Some("quota".into()));
    assert!(matches!(p.action(), PublishAction::Rename { from, to } if from == "/r/a.kaku-old" && to == "/r/a"));
    p.feed(None);
    assert!(matches!(p.action(), PublishAction::Finish(Err(e)) if e == "quota"));
}

#[test]
fn one_writer_per_destination_at_a_time() {
    let mut m = TransferManager::new();
    m.upload("/l/a", "/r/a", false, true);
    let second = m.upload("/l/b", "/r/a", false, true);
    let statuses = m.statuses();
    let refused = statuses.iter().find(|s| s.id == second).unwrap();
    assert!(matches!(refused.state, TransferState::Failed(_)));
    assert_eq!(m.take_jobs().len(), 1);
    assert!(m.events().iter().any(|e| matches!(e, TransferEvent::Finished(s) if s.id == second)));
}

#[test]
fn a_finished_transfer_leaves_its_destination_free() {
    let mut m = TransferManager::new();
    let id = m.download("/r/a", "/l/a", false);
    assert_eq!(m.statuses()[0].direction, Direction::Download);
    m.conclude(id, &Ok(()));
    assert!(matches!(m.statuses()[0].state, TransferState::Done));
    let next = m.download("/r/a", "/l/a", false);
    assert!(!matches!(
        m.statuses().iter().find(|s| s.id == next).unwrap().state,
        TransferState::Failed(_)
    ));
}

#[test]
fn a_cancelled_transfer_is_asked_to_stop() {
    let mut m = TransferManager::new();
    let id = m.copy_remote("/r/a", "/r/b");
    assert!(!m.is_cancelled(id));
    m.cancel(id);
    assert!(m.is_cancelled(id));
    m.conclude(id, &Err(TransferError::Cancelled));
    assert!(matches!(m.statuses()[0].state, TransferState::Cancelled));
}

#[test]
fn lanes_go_round_the_connections() {
    let mut m = TransferManager::new();
    let a = m.acquire_lane(0, 1);
    let b = m.acquire_lane(1, 1);
    assert_ne!(a, b);
    m.release_lane(a);
    assert_eq!(m.acquire_lane(2, 1), a);
}

#[test]
fn remote_parents_are_made_once() {
    let mut m = TransferManager::new();
    let first = m.missing_parents("/r/a/b/c.txt");
    assert_eq!(first.last().map(String::as_str), Some("/r/a/b"));
    assert!(m.missing_parents("/r/a/b/d.txt").is_empty());
}

/// However the path is spelled, only ancestors get directories.
#[test]
fn the_file_itself_is_never_a_parent() {
    let parents = |path: &str| TransferManager::new().missing_parents(path);
    assert_eq!(parents("/srv//data/./f"), vec!["/srv", "/srv/data"]);
    assert!(parents("a").is_empty());
    assert_eq!(parents("a/b/c"), vec!["a", "a/b"]);
    assert_eq!(parents("./a/b"), vec!["./a"]);
    assert!(parents("/f").is_empty());
    assert!(parents("").is_empty());
    // A file that became a directory is made like any other.
    let mut m = TransferManager::new();
    assert_eq!(m.missing_parents("/r/x"), vec!["/r"]);
    assert_eq!(m.missing_parents("/r/x/y"), vec!["/r/x"]);
}

#[test]
fn further_transfers_wait_for_a_slot() {
    let mut m = TransferManager::new();
    let ids: Vec<u64> =
        (0..7).map(|n| m.upload("/l/x", &format!("/r/{n}"), false, true)).collect();
    let taken = |m: &mut TransferManager| -> Vec<u64> {
        m.take_jobs().into_iter().map(|(id, _)| id).collect()
    };
    assert_eq!(taken(&mut m), ids[..MAX_CONCURRENT_TRANSFERS].to_vec());
    assert!(taken(&mut m).is_empty());
    m.conclude(ids[1], &Ok(()));
    assert_eq!(taken(&mut m), vec![ids[4]]);
    m.spawn_failed(ids[4], "out of threads");
    m.conclude(ids[0], &Err(TransferError::Cancelled));
    assert_eq!(taken(&mut m), vec![ids[5], ids[6]]);
    assert!(taken(&mut m).is_empty());
}

#[test]
fn slices_are_joined_into_one_verdict() {
    let plan = slice_plan(10, 3);
    assert_eq!(plan.iter().map(|s| s.1).sum::<u64>(), 10);
    let none: Vec<String> = Vec::new();
    let ends = vec![SliceEnd::Returned(Ok(())), SliceEnd::Returned(Ok(()))];
    assert_eq!(merge_slices(&none, &Ok(()), &ends), None);
    let ends = vec![SliceEnd::Returned(Err(TransferError::Failed("reset".into())))];
    assert_eq!(merge_slices(&none, &Ok(()), &ends).as_deref(), Some("reset"));
}

#[test]
fn speed_needs_two_samples() {
    let mut h = TransferHistory::new();
    assert_eq!(h.speed(1, 0, 0), None);
    assert_eq!(h.speed(1, 1000, 500_000_000), Some((1000, 500_000_000)));
    h.forget(1);
    assert_eq!(h.speed(1, 2000, 1_000_000_000), None);
}

#[test]
fn a_full_queue_still_takes_terminal_events() {
    let mut m = TransferManager::new();
    let id = m.upload("/l/a", "/r/a", false, true);
    for tick in 0..300 {
        m.emit_progress(id, tick, 300);
    }
    let second = m.upload("/l/b", "/r/a", false, true);
    let third = m.upload("/l/c", "/r/c", false, true);
    m.spawn_failed(third, "out of threads");
    m.conclude(id, &Ok(()));
    let events = m.events();
    assert_eq!(events.len(), EVENT_CHANNEL_CAPACITY + 3);
    let ended: Vec<u64> = events
        .iter()
        .filter_map(|e| match e {
            TransferEvent::Finished(s) => Some(s.id),
            TransferEvent::Updated => None,
        })
        .collect();
    assert_eq!(ended, vec![second, third, id]);
}

#[test]
fn open_transfers_survive_a_crowded_list() {
    let mut m = TransferManager::new();
    let open = m.upload("/l/open", "/r/open", false, true);
    for n in 0..80 {
        let id = m.upload("/l/x", &format!("/r/{n}"), false, true);
        m.conclude(id, &Ok(()));
    }
    assert!(m.statuses().len() <= 65);
    assert!(m.statuses().iter().any(|s| s.id == open));
    m.clear_finished();
    assert_eq!(m.statuses().iter().map(|s| s.id).collect::<Vec<_>>(), vec![open]);
}

#[test]
fn a_late_tick_does_not_revive_a_transfer() {
    let mut m = TransferManager::new();
    let id = m.download("/r/a", "/l/a", false);
    m.emit_progress(id, 5, 10);
    assert!(matches!(m.statuses()[0].state, TransferState::Running { bytes: 5, total: 10 }));
    m.conclude(id, &Err(TransferError::Failed("reset".into())));
    m.emit_progress(id, 9, 10);
    assert!(matches!(&m.statuses()[0].state, TransferState::Failed(e) if e == "reset"));
}

#[test]
fn a_resumed_upload_continues_its_part() {
    let mut job = Job::new(WorkerJob::Upload {
        local: "/l/a".into(),
        remote: "/r/a".into(),
        resume: true,
        overwrite: true,
    });
    let mut sought = None;
    let mut appended = None;
    loop {
        let reply = match job.action() {
            JobAction::StatLocal { .. } => Reply::Stat(Stat { size: Some(10), mode: None }),
            JobAction::StatRemote { path } => {
                assert_eq!(path, "/r/.kaku-part.a");
                Reply::Stat(Stat { size: Some(4), mode: None })
            }
            JobAction::OpenRemoteWrite { append, .. } => {
                appended = Some(append);
                Reply::Done
            }
            JobAction::Seek { offset } => {
                sought = Some(offset);
                Reply::Done
            }
            JobAction::Read { .. } => break,
            _ => Reply::Done,
        };
        job.feed(&reply, false, 0);
    }
    assert_eq!((sought, appended), (Some(4), Some(true)));
}

#[test]
fn a_short_slice_fails() {
    let mut slice = SliceCopy::new(true, 100, 10);
    let mut placed = 0;
    loop {
        let reply = match slice.action() {
            SliceAction::Finish(r) => {
                r.unwrap();
                break;
            }
            SliceAction::SeekReader(at) | SliceAction::SeekWriter(at) => {
                assert_eq!(at, 100);
                Reply::Done
            }
            _ => Reply::Done,
        };
        placed += slice.feed(&reply, false);
    }
    assert_eq!(placed, 10);

    let mut slice = SliceCopy::new(true, 100, 10);
    loop {
        let reply = match slice.action() {
            SliceAction::Finish(r) => {
                assert!(matches!(r, Err(TransferError::Failed(_))));
                break;
            }
            SliceAction::ReadExact(_) => Reply::Failed("early end".into()),
            _ => Reply::Done,
        };
        assert_eq!(slice.feed(&reply, false), 0);
    }
}

/// Answer every action of a parallel upload, with the slices failing or not.
fn run_parallel(slices: Option<&str>) -> (Vec<ParallelAction>, Result<(), TransferError>) {
    let mut job = ParallelJob::new(
        WorkerJob::Upload {
            local: "/l/big".into(),
            remote: "/r/big".into(),
            resume: false,
            overwrite: true,
        },
        100,
    );
    let mut trace = Vec::new();
    loop {
        let action = job.action();
        let reply = match &action {
            ParallelAction::Do(JobAction::Finish(_)) => match action {
                ParallelAction::Do(JobAction::Finish(r)) => return (trace, r),
                _ => unreachable!(),
            },
            ParallelAction::Do(JobAction::StatLocal { .. }) => {
                Reply::Stat(Stat { size: Some(100), mode: Some(0o640) })
            }
            ParallelAction::Helpers => Reply::Bytes(3),
            ParallelAction::Slices { workers } => {
                assert_eq!(*workers, 4);
                match slices {
                    Some(err) => Reply::Failed(err.into()),
                    None => Reply::Done,
                }
            }
            _ => Reply::Done,
        };
        job.feed(&reply, false);
        trace.push(action);
    }
}

#[test]
fn a_failed_slice_leaves_no_part() {
    let (trace, result) = run_parallel(None);
    result.unwrap();
    assert!(trace.iter().any(|a| matches!(
        a,
        ParallelAction::Do(JobAction::RenameRemote { from, to })
            if from == "/r/.kaku-part.big" && to == "/r/big"
    )));

    let (trace, result) = run_parallel(Some("helper died"));
    assert_eq!(result.unwrap_err().to_text(), "helper died");
    assert!(trace.iter().any(|a| matches!(a, ParallelAction::Invalidate)));
    assert!(trace.iter().any(|a| matches!(
        a,
        ParallelAction::Do(JobAction::RemoveRemote { path }) if path == "/r/.kaku-part.big"
    )));
    assert!(!trace.iter().any(|a| matches!(a, ParallelAction::Do(JobAction::RenameRemote { .. }))));
}

#[test]
fn helpers_are_dialed_for_a_crowd_and_once() {
    let mut m = TransferManager::new();
    m.set_helper_target("u@h".into());
    m.upload("/l/a", "/r/a", false, true);
    assert!(matches!(m.lane_helpers(), HelperPlan::Without));
    m.upload("/l/b", "/r/b", false, true);
    assert!(matches!(m.lane_helpers(), HelperPlan::Dial(t) if t == "u@h"));
    assert!(!m.helper_dialed(false));
    assert!(matches!(m.lane_helpers(), HelperPlan::Without));
    m.invalidate_helpers();
    assert!(m.helper_dialed(true));
    assert!(m.helper_dialed(true));
    assert!(!m.helper_dialed(true));
    assert!(matches!(m.ensure_helpers(), HelperPlan::Pooled));
}
