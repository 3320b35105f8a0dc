use datafusion::common::JoinType as EngineJoinType;
use datafusion_distributed::insert_broadcast::is_left_broadcast_safe;
use datafusion_distributed::plan::JoinType;

fn engine(join_type: JoinType) -> EngineJoinType {
    match join_type {
        JoinType::Inner => EngineJoinType::Inner,
        JoinType::Left => EngineJoinType::Left,
        JoinType::Right => EngineJoinType::Right,
        JoinType::Full => EngineJoinType::Full,
        JoinType::LeftSemi => EngineJoinType::LeftSemi,
        JoinType::RightSemi => EngineJoinType::RightSemi,
        JoinType::LeftAnti => EngineJoinType::LeftAnti,
        JoinType::RightAnti => EngineJoinType::RightAnti,
        JoinType::LeftMark => EngineJoinType::LeftMark,
        JoinType::RightMark => EngineJoinType::RightMark,
    }
}

const ALL: [JoinType; 10] = [
    JoinType::Inner,
    JoinType::Left,
    JoinType::Right,
    JoinType::Full,
    JoinType::LeftSemi,
    JoinType::RightSemi,
    JoinType::LeftAnti,
    JoinType::RightAnti,
    JoinType::LeftMark,
    JoinType::RightMark,
];

#[test]
fn sides_are_swapped_as_the_engine_swaps_them() {
    for join_type in ALL {
        assert_eq!(engine(join_type.swap()), engine(join_type).swap());
    }
}

#[test]
fn one_of_a_join_and_its_swapped_form_can_be_broadcast() {
    for join_type in ALL {
        let either = is_left_broadcast_safe(&join_type) || is_left_broadcast_safe(&join_type.swap());
        assert_eq!(either, join_type != JoinType::Full);
    }
}
