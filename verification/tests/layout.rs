use tui_core::constraint::{Constraint, Direction, Flex};
use tui_core::error::Error;
use tui_core::layout::{first_invalid, partition};
use tui_core::placement::{available_length, segment_offsets};
use tui_core::rect::Rect;

fn area(width: u16, height: u16) -> Rect {
    Rect { x: 0, y: 0, width, height }
}

fn widths(source: Rect, constraints: Vec<Constraint>, spacing: u16, flex: Flex) -> Vec<(u16, u16)> {
    partition(source, Direction::Horizontal, &constraints, spacing, flex)
        .unwrap()
        .iter()
        .map(|r| (r.x, r.width))
        .collect()
}

#[test]
fn three_rows_of_a_ten_row_area() {
    let constraints = vec![Constraint::Fixed(2), Constraint::Fill(1), Constraint::Fixed(1)];
    let rows = partition(area(80, 10), Direction::Vertical, &constraints, 0, Flex::Start).unwrap();
    assert_eq!(rows.len(), 3);
    let heights: Vec<u16> = rows.iter().map(|r| r.height).collect();
    let offsets: Vec<u16> = rows.iter().map(|r| r.y).collect();
    assert_eq!(heights, vec![2, 7, 1]);
    assert_eq!(offsets, vec![0, 2, 9]);
    for row in &rows {
        assert_eq!((row.x, row.width), (0, 80));
    }
}

#[test]
fn no_constraints_no_rectangles() {
    let rows = partition(area(10, 10), Direction::Vertical, &Vec::new(), 3, Flex::Center).unwrap();
    assert!(rows.is_empty());
}

#[test]
fn ratio_over_zero_is_refused() {
    let constraints = vec![Constraint::Fixed(1), Constraint::Ratio(1, 0)];
    assert_eq!(first_invalid(&constraints), Some(1));
    assert_eq!(
        partition(area(10, 10), Direction::Vertical, &constraints, 0, Flex::Start),
        Err(Error::InvalidConstraint)
    );
    assert_eq!(Constraint::ratio(1, 0), Err(Error::InvalidConstraint));
    assert_eq!(Constraint::ratio(1, 3), Ok(Constraint::Ratio(1, 3)));
}

#[test]
fn percentage_above_hundred_is_refused() {
    let constraints = vec![Constraint::Percentage(101)];
    assert_eq!(
        partition(area(10, 10), Direction::Horizontal, &constraints, 0, Flex::Start),
        Err(Error::InvalidConstraint)
    );
    assert_eq!(Constraint::percentage(101), Err(Error::InvalidConstraint));
    assert_eq!(Constraint::percentage(100), Ok(Constraint::Percentage(100)));
    assert!(Constraint::Percentage(100).valid());
    assert!(!Constraint::Percentage(101).valid());
    assert!(!Constraint::Ratio(0, 0).valid());
}

#[test]
fn percentage_rounds_to_nearest_and_ratio_rounds_down() {
    assert_eq!(Constraint::Percentage(25).requested(10), 3);
    assert_eq!(Constraint::Percentage(24).requested(10), 2);
    assert_eq!(Constraint::Percentage(50).requested(5), 3);
    assert_eq!(Constraint::Ratio(2, 3).requested(10), 6);
    assert_eq!(Constraint::Ratio(1, 3).requested(10), 3);
    assert_eq!(Constraint::Fill(7).requested(10), 0);
    assert_eq!(Constraint::Fixed(4).requested(10), 4);
    assert_eq!(
        widths(area(10, 1), vec![Constraint::Percentage(25), Constraint::Ratio(2, 3)], 0, Flex::Start),
        vec![(0, 3), (3, 6)]
    );
}

#[test]
fn equal_fills_share_evenly_from_the_left() {
    let fills = vec![Constraint::Fill(1), Constraint::Fill(1), Constraint::Fill(1)];
    assert_eq!(widths(area(10, 1), fills.clone(), 0, Flex::Start), vec![(0, 4), (4, 3), (7, 3)]);
    // with one cell between them, eight cells are shared
    assert_eq!(widths(area(10, 1), fills, 1, Flex::Start), vec![(0, 3), (4, 3), (8, 2)]);
    let zero = vec![Constraint::Fill(0), Constraint::Fill(0)];
    assert_eq!(widths(area(5, 1), zero, 0, Flex::Start), vec![(0, 3), (3, 2)]);
}

#[test]
fn equal_fills_sum_to_the_source() {
    for len in 0..40u16 {
        for n in 1..7usize {
            let fills = vec![Constraint::Fill(3); n];
            let got = widths(area(len, 1), fills, 0, Flex::Start);
            let sum: u16 = got.iter().map(|p| p.1).sum();
            assert_eq!(sum, len);
            for (_, w) in got {
                assert!(w == len / n as u16 || w == len / n as u16 + 1);
            }
        }
    }
}

#[test]
fn fills_share_by_weight() {
    let fills = vec![Constraint::Fill(1), Constraint::Fill(3)];
    assert_eq!(widths(area(8, 1), fills.clone(), 0, Flex::Start), vec![(0, 2), (2, 6)]);
    // 10 cells: 2 and 7 rounded down, the cell left over goes to the first
    assert_eq!(widths(area(10, 1), fills, 0, Flex::Start), vec![(0, 3), (3, 7)]);
    let mixed = vec![Constraint::Fill(0), Constraint::Fill(2)];
    assert_eq!(widths(area(9, 1), mixed, 0, Flex::Start), vec![(0, 0), (0, 9)]);
}

#[test]
fn min_takes_what_nothing_else_claims() {
    let rows = vec![Constraint::Fixed(1), Constraint::Min(0), Constraint::Fixed(1)];
    assert_eq!(widths(area(10, 1), rows, 0, Flex::Start), vec![(0, 1), (1, 8), (9, 1)]);
    // beside a fill, a minimum keeps to its bound
    let both = vec![Constraint::Min(2), Constraint::Fill(1)];
    assert_eq!(widths(area(10, 1), both, 0, Flex::Start), vec![(0, 2), (2, 8)]);
    let two = vec![Constraint::Min(0), Constraint::Min(4)];
    assert_eq!(widths(area(10, 1), two, 0, Flex::Start), vec![(0, 3), (3, 7)]);
}

#[test]
fn max_keeps_to_its_bound() {
    let rows = vec![Constraint::Fixed(1), Constraint::Max(3), Constraint::Fixed(1), Constraint::Min(0)];
    assert_eq!(widths(area(20, 1), rows, 0, Flex::Start), vec![(0, 1), (1, 3), (4, 1), (5, 15)]);
}

#[test]
fn short_source_yields_in_order_of_firmness() {
    let all = vec![
        Constraint::Fixed(4),
        Constraint::Percentage(50),
        Constraint::Ratio(1, 2),
        Constraint::Min(4),
        Constraint::Max(4),
        Constraint::Fill(1),
    ];
    let lens = |len: u16| -> Vec<u16> {
        // requests along a source of eight: 4, 4, 4, 4, 4, 0
        tui_core::sizing::segment_lengths(&all, 8, len)
    };
    assert_eq!(lens(30), vec![4, 4, 4, 4, 4, 10]);
    assert_eq!(lens(20), vec![4, 4, 4, 4, 4, 0]);
    assert_eq!(lens(18), vec![4, 4, 4, 4, 2, 0]);
    assert_eq!(lens(14), vec![4, 4, 4, 2, 0, 0]);
    assert_eq!(lens(10), vec![4, 4, 2, 0, 0, 0]);
    assert_eq!(lens(5), vec![4, 1, 0, 0, 0, 0]);
    assert_eq!(lens(3), vec![3, 0, 0, 0, 0, 0]);
    assert_eq!(lens(0), vec![0, 0, 0, 0, 0, 0]);
}

#[test]
fn rightmost_of_a_kind_yields_first() {
    let fixed = vec![Constraint::Fixed(10), Constraint::Fixed(10)];
    assert_eq!(widths(area(15, 1), fixed, 0, Flex::Start), vec![(0, 10), (10, 5)]);
    let huge = vec![Constraint::Fixed(1000), Constraint::Fixed(5)];
    assert_eq!(widths(area(10, 1), huge, 0, Flex::Start), vec![(0, 10), (10, 0)]);
}

#[test]
fn flex_places_the_slack() {
    let two = vec![Constraint::Fixed(2), Constraint::Fixed(3)];
    assert_eq!(widths(area(10, 1), two.clone(), 0, Flex::Start), vec![(0, 2), (2, 3)]);
    assert_eq!(widths(area(10, 1), two.clone(), 0, Flex::End), vec![(5, 2), (7, 3)]);
    assert_eq!(widths(area(10, 1), two.clone(), 0, Flex::Center), vec![(2, 2), (4, 3)]);
    assert_eq!(widths(area(10, 1), two.clone(), 0, Flex::SpaceBetween), vec![(0, 2), (7, 3)]);
    assert_eq!(widths(area(10, 1), two, 1, Flex::End), vec![(4, 2), (7, 3)]);
    let three = vec![Constraint::Fixed(1), Constraint::Fixed(1), Constraint::Fixed(1)];
    // seven cells of slack over two gaps: four and three
    assert_eq!(
        widths(area(10, 1), three, 0, Flex::SpaceBetween),
        vec![(0, 1), (5, 1), (9, 1)]
    );
}

#[test]
fn a_centred_segment_has_even_slack() {
    for len in 0..30u16 {
        for want in 0..35u16 {
            let got = widths(Rect { x: 3, y: 0, width: len, height: 1 }, vec![Constraint::Fixed(want)], 0, Flex::Center);
            let (x, w) = got[0];
            let before = x - 3;
            let after = 3 + len - (x + w);
            assert!(after == before || after == before + 1);
        }
    }
}

#[test]
fn segments_never_overlap_nor_leave_the_source() {
    let lists = vec![
        vec![Constraint::Fixed(5), Constraint::Percentage(30), Constraint::Ratio(1, 4)],
        vec![Constraint::Fixed(50), Constraint::Min(3), Constraint::Max(9), Constraint::Fill(2)],
        vec![Constraint::Max(4), Constraint::Fill(0), Constraint::Fill(5), Constraint::Min(1)],
    ];
    let source = Rect { x: 7, y: 2, width: 23, height: 4 };
    for list in lists {
        for spacing in 0..14u16 {
            for flex in [Flex::Start, Flex::End, Flex::Center, Flex::SpaceBetween] {
                let rects = partition(source, Direction::Horizontal, &list, spacing, flex).unwrap();
                assert_eq!(rects.len(), list.len());
                let mut edge = source.x;
                for r in &rects {
                    assert!(r.x >= edge);
                    assert!(r.x + r.width <= source.x + source.width);
                    assert_eq!((r.y, r.height), (2, 4));
                    edge = r.x + r.width;
                }
                for i in 0..rects.len() {
                    for j in 0..rects.len() {
                        if i != j {
                            assert!(!rects[i].intersects(&rects[j]));
                        }
                    }
                }
                assert_eq!(rects, partition(source, Direction::Horizontal, &list, spacing, flex).unwrap());
            }
        }
    }
}

#[test]
fn gaps_wider_than_the_source_leave_nothing() {
    let list = vec![Constraint::Fixed(1), Constraint::Fixed(1), Constraint::Fixed(1)];
    assert_eq!(widths(area(10, 1), list, 6, Flex::Start), vec![(0, 0), (6, 0), (10, 0)]);
}

#[test]
fn a_source_at_the_far_edge_is_cut_where_coordinates_end() {
    let source = Rect { x: 65530, y: 0, width: 100, height: 1 };
    let list = vec![Constraint::Fill(1), Constraint::Fill(1)];
    assert_eq!(
        widths(source, list, 0, Flex::Start),
        vec![(65530, 3), (65533, 2)]
    );
}

#[test]
fn a_ratio_over_zero_asks_for_nothing() {
    assert_eq!(Constraint::Ratio(3, 0).requested(10), 0);
    assert_eq!(Constraint::Percentage(200).requested(10), 20);
    assert_eq!(tui_core::sizing::segment_lengths(&vec![Constraint::Ratio(3, 0), Constraint::Fill(1)], 10, 10), vec![0, 10]);
}

#[test]
fn available_cells_and_offsets() {
    assert_eq!(available_length(10, 2, 3), 6);
    assert_eq!(available_length(10, 6, 3), 0);
    assert_eq!(available_length(10, 6, 1), 10);
    assert_eq!(available_length(10, 6, 0), 10);
    assert_eq!(segment_offsets(&vec![2, 3], 10, 1, Flex::Center), vec![2, 5]);
    assert_eq!(segment_offsets(&vec![2, 3], 10, 1, Flex::SpaceBetween), vec![0, 7]);
}
