use ledcat::geometry::{Axis, Dimensions, Mirror, Reverse, Transposition, Zigzag};
use ledcat::transpose::{transposition_table, TransposeKind};

fn transpose_all(trans: impl Transposition, input: impl Iterator<Item = usize>) -> Vec<usize> {
    input.map(|index| trans.transpose(index)).collect()
}

#[test]
fn dimensions_1d_parse() {
    assert!("".parse::<Dimensions>().is_err());
    assert!("0".parse::<Dimensions>().is_err());
    assert!("-42".parse::<Dimensions>().is_err());
    assert!("asdf".parse::<Dimensions>().is_err());
    assert_eq!(
        Dimensions { w: 42, h: 1 },
        "42".parse::<Dimensions>().unwrap()
    );
}

#[test]
fn dimensions_2d_parse() {
    assert!("0x0".parse::<Dimensions>().is_err());
    assert!("1x-1".parse::<Dimensions>().is_err());
    assert!("-1x0".parse::<Dimensions>().is_err());
    assert!("-1x-1".parse::<Dimensions>().is_err());
    assert_eq!(
        Dimensions { w: 4, h: 20 },
        "4x20".parse::<Dimensions>().unwrap()
    );
}

#[test]
fn dimensions_size() {
    assert_eq!(42, Dimensions { w: 42, h: 1 }.size());
    assert_eq!(80, Dimensions { w: 4, h: 20 }.size());
}

#[test]
fn transposition_list() {
    let tr: Vec<Box<dyn Transposition>> = vec![
        Box::from(Zigzag {
            width: 4,
            height: 3,
            major_axis: Axis::Y,
        }),
        Box::from(Reverse { length: 4 * 3 }),
    ];
    assert_eq!(
        vec![11, 10, 9, 8, 4, 5, 6, 7, 3, 2, 1, 0],
        transpose_all(&tr, 0..12)
    );
}

#[test]
fn reverse() {
    assert_eq!(
        vec![9, 8, 7, 6, 5, 4, 3, 2, 1, 0],
        transpose_all(&Reverse { length: 10 }, 0..10)
    );
}

#[test]
fn mirror_x() {
    let m = Mirror {
        width: 3,
        height: 3,
        axis: Axis::X,
    };
    assert_eq!(vec![2, 1, 0, 5, 4, 3, 8, 7, 6], transpose_all(&m, 0..9));
}

#[test]
fn mirror_y() {
    let m = Mirror {
        width: 3,
        height: 3,
        axis: Axis::Y,
    };
    assert_eq!(vec![6, 7, 8, 3, 4, 5, 0, 1, 2], transpose_all(&m, 0..9));
}

#[test]
fn zigzag_x() {
    let zz = Zigzag {
        width: 3,
        height: 3,
        major_axis: Axis::X,
    };
    assert_eq!(vec![0, 5, 6, 1, 4, 7, 2, 3, 8], transpose_all(&zz, 0..9));
    let zz = Zigzag {
        width: 4,
        height: 3,
        major_axis: Axis::X,
    };
    assert_eq!(
        vec![0, 5, 6, 11, 1, 4, 7, 10, 2, 3, 8, 9],
        transpose_all(&zz, 0..12)
    );
}

#[test]
fn zigzag_y() {
    let zz = Zigzag {
        width: 3,
        height: 3,
        major_axis: Axis::Y,
    };
    assert_eq!(vec![0, 1, 2, 5, 4, 3, 6, 7, 8], transpose_all(&zz, 0..9));
    let zz = Zigzag {
        width: 4,
        height: 3,
        major_axis: Axis::Y,
    };
    assert_eq!(
        vec![0, 1, 2, 3, 7, 6, 5, 4, 8, 9, 10, 11],
        transpose_all(&zz, 0..12)
    );
}

#[test]
fn empty_table_is_identity() {
    let dims = Dimensions { w: 4, h: 3 };
    let table = transposition_table(&dims, &vec![]).unwrap();
    assert_eq!(vec![0, 1, 2, 3, 4, 5, 6, 7, 8, 9, 10, 11], table);
}

#[test]
fn reverse_twice_is_identity() {
    let dims = Dimensions { w: 12, h: 1 };
    let table =
        transposition_table(&dims, &vec![TransposeKind::Reverse, TransposeKind::Reverse]).unwrap();
    assert_eq!((0..12).collect::<Vec<usize>>(), table);
}

#[test]
fn table_is_permutation() {
    let dims = Dimensions { w: 5, h: 4 };
    let ops = vec![
        TransposeKind::ZigzagX,
        TransposeKind::MirrorY,
        TransposeKind::Reverse,
        TransposeKind::MirrorX,
    ];
    let table = transposition_table(&dims, &ops).unwrap();
    let mut seen = vec![false; 20];
    for &t in &table {
        assert!(t < 20);
        assert!(!seen[t]);
        seen[t] = true;
    }
    assert!(seen.iter().all(|&s| s));
}

#[test]
fn two_dee_ops_reject_one_dee() {
    let dims = Dimensions { w: 12, h: 1 };
    assert!(transposition_table(&dims, &vec![TransposeKind::Reverse]).is_ok());
    for (kind, name) in [
        (TransposeKind::ZigzagX, "zigzag_x"),
        (TransposeKind::ZigzagY, "zigzag_y"),
        (TransposeKind::MirrorX, "mirror_x"),
        (TransposeKind::MirrorY, "mirror_y"),
    ] {
        let err = transposition_table(&dims, &vec![kind]).unwrap_err();
        assert_eq!(
            format!("{} requires 2D geometry to be specified", name),
            err.message()
        );
    }
    // The first failing transposition decides the message.
    let err = transposition_table(
        &dims,
        &vec![TransposeKind::Reverse, TransposeKind::MirrorY, TransposeKind::ZigzagX],
    )
    .unwrap_err();
    assert_eq!("mirror_y requires 2D geometry to be specified", err.message());
}

#[test]
fn parse_error_names_the_input() {
    let err = "asdf".parse::<Dimensions>().unwrap_err();
    assert_eq!("can not parse \"asdf\" into Dimensions", err);
}

#[test]
fn parse_rejects_overflow() {
    assert!("99999999999999999999999999".parse::<Dimensions>().is_err());
    assert!("3x".parse::<Dimensions>().is_err());
    assert!("x3".parse::<Dimensions>().is_err());
    assert!("1x2x3".parse::<Dimensions>().is_err());
    assert!("007".parse::<Dimensions>().is_err());
}
