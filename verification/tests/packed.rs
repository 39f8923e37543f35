use more_collections::SmallSet;
use smallvec::SmallVec;
use yosys_isim::model::Logic;
use yosys_isim::model::Logic_Variants;
use yosys_isim::ops::BinaryMapOp;
use yosys_isim::ops::UnaryMapOp;
use yosys_isim::packed::LogicArray64;
use yosys_isim::packed::LogicSlice;
use yosys_isim::sim::OpFns;

type L = Logic;

#[test]
fn test_conversion() {
    assert_eq!(
        RANDOM_LOGICS,
        LogicArray64::to_logics_fixed::<64>(&LogicArray64::from_logics(&RANDOM_LOGICS))
    )
}

#[test]
fn test_ops() {
    let ops: &[(
        &'static str,
        fn(&LogicArray64, &LogicArray64) -> LogicArray64,
        fn(bool, bool) -> bool,
    )] = &[
        ("and", LogicArray64::and, |a, b| a & b),
        ("or", LogicArray64::or, |a, b| a | b),
    ];

    for (name, op, reference_op) in ops {
        for a in Logic_Variants {
            for b in Logic_Variants {
                let actual_res = wrap_op(op)(a, b);
                let expected_res = wrap_reference_op(reference_op)(a, b);
                println!(
                    "{}({:?},{:?}) = {:?}, expected {:?}",
                    name, a, b, actual_res, expected_res
                );
                assert_eq!(actual_res, expected_res)
            }
        }
    }
}

#[test]
fn test_pack_unpack() {
    let packged = LogicArray64::from_logics(&RANDOM_LOGICS);
    let mut unpacked = [Logic::X; 64];

    LogicArray64::to_logics(&packged, &mut unpacked);

    assert_eq!(unpacked, RANDOM_LOGICS)
}

fn to_bool_set(logic: &Logic) -> SmallVec<[bool; 2]> {
    let mut set = SmallVec::new();
    match logic {
        Logic::_0 => set.push(false),
        Logic::_1 => set.push(true),
        Logic::X => {
            set.push(false);
            set.push(true);
        }
    }
    set
}

fn wrap_op(
    op: impl Fn(&LogicArray64, &LogicArray64) -> LogicArray64,
) -> impl Fn(Logic, Logic) -> Logic {
    move |a: Logic, b: Logic| -> Logic {
        LogicArray64::to_logic(&op(
            &LogicArray64::from_logic(a),
            &LogicArray64::from_logic(b),
        ))
    }
}

fn wrap_reference_op(op: impl Fn(bool, bool) -> bool) -> impl Fn(Logic, Logic) -> Logic {
    move |a: Logic, b: Logic| -> Logic {
        let mut y_bool: SmallSet<bool, 2> = SmallSet::new();
        for a_bool in to_bool_set(&a) {
            for b_bool in to_bool_set(&b) {
                y_bool.insert(op(a_bool, b_bool));
            }
        }
        match (y_bool.contains(&false), y_bool.contains(&true)) {
            (true, false) => Logic::_0,
            (false, true) => Logic::_1,
            (true, true) => Logic::X,
            (false, false) => panic!("illegal state"),
        }
    }
}

static RANDOM_LOGICS: [L; 64] = [
    L::_0,
    L::_1,
    L::X,
    L::_0,
    L::_1,
    L::X,
    L::_0,
    L::_1,
    L::X,
    L::_0,
    L::_1,
    L::X,
    L::_0,
    L::_1,
    L::X,
    L::_0,
    L::_1,
    L::X,
    L::_0,
    L::_1,
    L::X,
    L::_0,
    L::_1,
    L::X,
    L::_0,
    L::_1,
    L::X,
    L::_0,
    L::_1,
    L::X,
    L::_0,
    L::_1,
    L::X,
    L::_0,
    L::_1,
    L::X,
    L::_0,
    L::_1,
    L::X,
    L::_0,
    L::_1,
    L::X,
    L::_0,
    L::_1,
    L::X,
    L::_0,
    L::_1,
    L::X,
    L::_0,
    L::_1,
    L::X,
    L::_0,
    L::_1,
    L::X,
    L::_0,
    L::_1,
    L::X,
    L::_0,
    L::_1,
    L::X,
    L::_0,
    L::_1,
    L::X,
    L::_0,
];

fn unpack(packed: &LogicArray64) -> Vec<Logic> {
    let mut logics = vec![Logic::X; packed.width()];
    LogicArray64::to_logics(packed, &mut logics);
    logics
}

#[test]
fn packed_operators_agree_with_the_truth_tables_on_every_lane() {
    let tables = OpFns::new();
    let mut a = Vec::new();
    let mut b = Vec::new();
    for x in Logic_Variants {
        for y in Logic_Variants {
            a.push(x);
            b.push(y);
        }
    }
    let packed_a = LogicArray64::from_logics(&a);
    let packed_b = LogicArray64::from_logics(&b);
    let cases: [(BinaryMapOp, fn(&LogicArray64, &LogicArray64) -> LogicArray64); 4] = [
        (BinaryMapOp::AND, LogicArray64::and),
        (BinaryMapOp::OR, LogicArray64::or),
        (BinaryMapOp::NAND, LogicArray64::nand),
        (BinaryMapOp::NOR, LogicArray64::nor),
    ];
    for (op, packed_op) in cases {
        let by_word = unpack(&packed_op(&packed_a, &packed_b));
        let by_binary_op = unpack(&LogicArray64::binary_op(op, &packed_a, &packed_b));
        let by_table: Vec<Logic> = (0..a.len())
            .map(|i| tables.apply_binary(op, a[i], b[i]))
            .collect();
        assert_eq!(by_word, by_table);
        assert_eq!(by_binary_op, by_table);
    }
    let inverted = unpack(&LogicArray64::not(&packed_a));
    let by_table: Vec<Logic> = a
        .iter()
        .map(|x| tables.apply_unary(UnaryMapOp::NOT, *x))
        .collect();
    assert_eq!(inverted, by_table);
}

#[test]
fn inverting_twice_gives_the_value_back_and_keeps_unknown_unknown() {
    let logics = [Logic::_0, Logic::_1, Logic::X, Logic::X, Logic::_1];
    let packed = LogicArray64::from_logics(&logics);
    let once = LogicArray64::not(&packed);
    assert_eq!(
        unpack(&once),
        vec![Logic::_1, Logic::_0, Logic::X, Logic::X, Logic::_0]
    );
    assert_eq!(unpack(&LogicArray64::not(&once)), logics.to_vec());
}

#[test]
fn operators_after_an_inversion_ignore_what_stands_under_an_unknown_lane() {
    // Inverting leaves a set value bit under the unknown lane; the operators must not read it.
    let unknown = LogicArray64::not(&LogicArray64::from_logic(Logic::X));
    let low = LogicArray64::from_logic(Logic::_0);
    let high = LogicArray64::from_logic(Logic::_1);
    assert_eq!(LogicArray64::to_logic(&LogicArray64::and(&unknown, &low)), Logic::_0);
    assert_eq!(LogicArray64::to_logic(&LogicArray64::and(&unknown, &high)), Logic::X);
    assert_eq!(LogicArray64::to_logic(&LogicArray64::or(&unknown, &low)), Logic::X);
    assert_eq!(LogicArray64::to_logic(&LogicArray64::or(&unknown, &high)), Logic::_1);
    assert_eq!(LogicArray64::to_logic(&LogicArray64::or(&low, &unknown)), Logic::X);
    assert_eq!(LogicArray64::to_logic(&LogicArray64::and(&high, &unknown)), Logic::X);
}

#[test]
fn binary_operators_are_as_wide_as_the_narrower_operand() {
    let wide = LogicArray64::from_logics(&[Logic::_1, Logic::_1, Logic::_0]);
    let narrow = LogicArray64::from_logics(&[Logic::_1, Logic::X]);
    let both = LogicArray64::and(&wide, &narrow);
    assert_eq!(both.width(), 2);
    assert_eq!(unpack(&both), vec![Logic::_1, Logic::X]);
    let either = LogicArray64::or(&narrow, &wide);
    assert_eq!(either.width(), 2);
    assert_eq!(unpack(&either), vec![Logic::_1, Logic::_1]);
}

#[test]
fn round_trip_holds_for_every_width() {
    for width in 0..=64 {
        let logics: Vec<Logic> = (0..width).map(|i| Logic_Variants[(i * 7 + width) % 3]).collect();
        let packed = LogicArray64::from_logics(&logics);
        assert_eq!(packed.width(), width);
        assert_eq!(unpack(&packed), logics);
    }
    assert_eq!(LogicArray64::capacity(), 64);
}
