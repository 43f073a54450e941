use xaam::codec::to_bytes;
use xaam::error::XaamError;
use xaam::lifecycle::check_deadline;
use xaam::lifecycle::check_score;
use xaam::lifecycle::verdict;
use xaam::lifecycle::DeliverableStatus;
use xaam::lifecycle::DeliverableStep;
use xaam::lifecycle::StakeStatus;
use xaam::lifecycle::StakeStep;
use xaam::lifecycle::TaskStatus;
use xaam::lifecycle::TaskStep;
use xaam::lifecycle::MAX_SCORE;
use xaam::pubkey::Pubkey;
use xaam::state::Deliverable;
use xaam::state::Task;

const TASK_STATES: [TaskStatus; 6] = [
    TaskStatus::Created,
    TaskStatus::Staked,
    TaskStatus::InProgress,
    TaskStatus::Submitted,
    TaskStatus::Judged,
    TaskStatus::Completed,
];

const TASK_STEPS: [TaskStep; 4] =
    [TaskStep::Stake, TaskStep::Submit, TaskStep::Judge, TaskStep::Complete];

#[test]
fn task_ranks_follow_the_order_of_progress() {
    for (i, s) in TASK_STATES.iter().enumerate() {
        assert_eq!(s.rank(), i as u8);
    }
}

#[test]
fn task_takes_the_five_steps_of_its_life() {
    assert_eq!(TaskStatus::Created.advance(TaskStep::Stake), Ok(TaskStatus::Staked));
    assert_eq!(TaskStatus::Staked.advance(TaskStep::Submit), Ok(TaskStatus::Submitted));
    assert_eq!(TaskStatus::InProgress.advance(TaskStep::Submit), Ok(TaskStatus::Submitted));
    assert_eq!(TaskStatus::Submitted.advance(TaskStep::Judge), Ok(TaskStatus::Judged));
    assert_eq!(TaskStatus::Judged.advance(TaskStep::Complete), Ok(TaskStatus::Completed));
}

#[test]
fn task_refuses_every_other_step() {
    let mut allowed: u32 = 0;
    for s in TASK_STATES.iter() {
        for step in TASK_STEPS.iter() {
            match s.advance(*step) {
                Ok(_) => allowed += 1,
                Err(e) => assert_eq!(e, XaamError::InvalidTaskState),
            }
        }
    }
    assert_eq!(allowed, 5);
}

#[test]
fn task_never_steps_back() {
    for s in TASK_STATES.iter() {
        for step in TASK_STEPS.iter() {
            if let Ok(next) = s.advance(*step) {
                assert!(next.rank() > s.rank());
            }
        }
    }
}

#[test]
fn completed_task_takes_no_step() {
    for step in TASK_STEPS.iter() {
        assert_eq!(TaskStatus::Completed.advance(*step), Err(XaamError::InvalidTaskState));
    }
}

#[test]
fn active_stake_is_returned_or_forfeited() {
    assert_eq!(StakeStatus::Active.advance(StakeStep::Return), Ok(StakeStatus::Returned));
    assert_eq!(StakeStatus::Active.advance(StakeStep::Forfeit), Ok(StakeStatus::Forfeited));
}

#[test]
fn released_stake_takes_no_step() {
    for s in [StakeStatus::Returned, StakeStatus::Forfeited] {
        for step in [StakeStep::Return, StakeStep::Forfeit] {
            assert_eq!(s.advance(step), Err(XaamError::InvalidStakeState));
        }
    }
}

#[test]
fn deliverable_is_judged_then_settled() {
    assert_eq!(
        DeliverableStatus::Submitted.advance(DeliverableStep::Judge),
        Ok(DeliverableStatus::Judged)
    );
    assert_eq!(
        DeliverableStatus::Judged.advance(DeliverableStep::Accept),
        Ok(DeliverableStatus::Accepted)
    );
    assert_eq!(
        DeliverableStatus::Judged.advance(DeliverableStep::Reject),
        Ok(DeliverableStatus::Rejected)
    );
}

#[test]
fn deliverable_refuses_steps_out_of_turn() {
    assert_eq!(
        DeliverableStatus::Submitted.advance(DeliverableStep::Accept),
        Err(XaamError::InvalidDeliverable)
    );
    assert_eq!(
        DeliverableStatus::Submitted.advance(DeliverableStep::Reject),
        Err(XaamError::InvalidDeliverable)
    );
    assert_eq!(
        DeliverableStatus::Judged.advance(DeliverableStep::Judge),
        Err(XaamError::InvalidDeliverable)
    );
    for s in [DeliverableStatus::Accepted, DeliverableStatus::Rejected] {
        for step in [DeliverableStep::Judge, DeliverableStep::Accept, DeliverableStep::Reject] {
            assert_eq!(s.advance(step), Err(XaamError::InvalidDeliverable));
        }
    }
}

#[test]
fn verdict_accepts_from_the_threshold_upwards() {
    assert_eq!(verdict(70, 70), DeliverableStep::Accept);
    assert_eq!(verdict(71, 70), DeliverableStep::Accept);
    assert_eq!(verdict(69, 70), DeliverableStep::Reject);
    assert_eq!(verdict(0, 0), DeliverableStep::Accept);
    assert_eq!(verdict(100, 101), DeliverableStep::Reject);
}

#[test]
fn scores_run_from_zero_to_a_hundred() {
    assert_eq!(MAX_SCORE, 100);
    assert_eq!(check_score(0), Ok(()));
    assert_eq!(check_score(100), Ok(()));
    assert_eq!(check_score(101), Err(XaamError::InvalidDeliverable));
    assert_eq!(check_score(255), Err(XaamError::InvalidDeliverable));
}

#[test]
fn deadline_must_be_strictly_ahead() {
    assert_eq!(check_deadline(1001, 1000), Ok(()));
    assert_eq!(check_deadline(1000, 1000), Err(XaamError::TaskDeadlineExpired));
    assert_eq!(check_deadline(999, 1000), Err(XaamError::TaskDeadlineExpired));
    assert_eq!(check_deadline(i64::MIN, i64::MIN), Err(XaamError::TaskDeadlineExpired));
    assert_eq!(check_deadline(i64::MAX, i64::MIN), Ok(()));
}

fn deliverable(status: DeliverableStatus, score: u8) -> Deliverable {
    Deliverable {
        is_initialized: true,
        encrypted_content_url: "c".to_string(),
        encryption_keys: vec![],
        status,
        score,
        feedback: "f".to_string(),
    }
}

#[test]
fn a_judged_deliverable_settles_by_the_threshold() {
    let mut good = deliverable(DeliverableStatus::Judged, 70);
    assert_eq!(good.settle(70), Ok(()));
    assert_eq!(good, deliverable(DeliverableStatus::Accepted, 70));
    let mut poor = deliverable(DeliverableStatus::Judged, 69);
    assert_eq!(poor.settle(70), Ok(()));
    assert_eq!(poor, deliverable(DeliverableStatus::Rejected, 69));
}

#[test]
fn only_a_judged_deliverable_settles() {
    for status in
        [DeliverableStatus::Submitted, DeliverableStatus::Accepted, DeliverableStatus::Rejected]
    {
        let mut d = deliverable(status, 90);
        assert_eq!(d.settle(50), Err(XaamError::InvalidDeliverable));
        assert_eq!(d, deliverable(status, 90));
    }
}

fn key(n: u8) -> Pubkey {
    Pubkey::new_from_array([n; 32])
}

fn task(judges: [Option<Pubkey>; 5]) -> Task {
    Task {
        is_initialized: true,
        nft_id: key(1),
        title: "é".to_string(),
        summary: "abc".to_string(),
        encrypted_payload_url: "".to_string(),
        creator_id: key(2),
        status: TaskStatus::Created,
        deadline: 1,
        reward_amount: 1,
        reward_currency: "USDC".to_string(),
        judges,
        created_at: 0,
        updated_at: 0,
    }
}

#[test]
fn a_task_knows_its_judges() {
    let t = task([Some(key(5)), Some(key(6)), None, None, None]);
    assert!(t.has_judge(&key(5)));
    assert!(t.has_judge(&key(6)));
    assert!(!t.has_judge(&key(7)));
    assert!(!t.has_judge(&key(0)));
    let full = task([Some(key(1)), Some(key(2)), Some(key(3)), Some(key(4)), Some(key(5))]);
    assert!(full.has_judge(&key(5)));
    assert!(!task([None; 5]).has_judge(&key(5)));
}

#[test]
fn a_task_takes_its_fixed_part_its_texts_and_its_judges() {
    let texts: usize = 2 + 3 + 0 + 4;
    assert_eq!(to_bytes(&task([None; 5])).unwrap().len(), 119 + texts);
    assert_eq!(
        to_bytes(&task([Some(key(5)), Some(key(6)), None, None, None])).unwrap().len(),
        119 + texts + 64
    );
    assert_eq!(
        to_bytes(&task([Some(key(1)), Some(key(2)), Some(key(3)), Some(key(4)), Some(key(5))]))
            .unwrap()
            .len(),
        279 + texts
    );
}
