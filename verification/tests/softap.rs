use cyberpixie::{
    proto::types::ImageId,
    render::{reading_step, ReadingAction, ReadingCommand, ReadingState, RenderStats},
    softap::truncate_buf,
};

#[test]
fn truncate_receive_buffer() {
    let mut buf = b"1,CONNECT\r\nrest".to_vec();
    truncate_buf(&mut buf, 11);
    assert_eq!(buf, b"rest".to_vec());
    truncate_buf(&mut buf, 0);
    assert_eq!(buf, b"rest".to_vec());
    truncate_buf(&mut buf, 4);
    assert!(buf.is_empty());
}

#[test]
fn render_statistics() {
    let mut stats = RenderStats::new();
    assert!(stats.record_line(100, 2_000));
    assert!(!stats.record_line(3_000, 2_000));
    assert_eq!(stats.counts, 2);
    assert_eq!(stats.dropped_frames, 1);
    assert_eq!(stats.total_render_time, 3_100);
    assert_eq!(stats.max_render_time, 3_000);
    assert!(!stats.report_due());
    stats.restart();
    assert_eq!(stats.counts, 0);
    assert_eq!(stats.max_render_time, 3_000);
    stats.clear();
    assert_eq!(stats, RenderStats::new());
}

#[test]
fn reading_task_steps() {
    let id = ImageId(3);
    assert_eq!(
        reading_step(ReadingState::Waiting, None),
        (ReadingState::Waiting, ReadingAction::Wait)
    );
    assert_eq!(
        reading_step(ReadingState::Waiting, Some(ReadingCommand::Stop)),
        (ReadingState::Waiting, ReadingAction::Wait)
    );
    assert_eq!(
        reading_step(ReadingState::Waiting, Some(ReadingCommand::Start(id))),
        (ReadingState::Reading(id), ReadingAction::Open(id))
    );
    assert_eq!(
        reading_step(ReadingState::Reading(id), None),
        (ReadingState::Reading(id), ReadingAction::NextLine)
    );
    assert_eq!(
        reading_step(ReadingState::Reading(id), Some(ReadingCommand::Start(ImageId(1)))),
        (ReadingState::Reading(id), ReadingAction::NextLine)
    );
    assert_eq!(
        reading_step(ReadingState::Reading(id), Some(ReadingCommand::Stop)),
        (ReadingState::Waiting, ReadingAction::Finish)
    );
}
