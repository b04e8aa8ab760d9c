use liquid_ml::engine::block_bounds;
use liquid_ml::rower::join_blocks;
use liquid_ml::{Column, Data, DataFrame, DataType, LiquidError, Row, RowCounter, Rower, Schema};

/// Collects the index of every row it visits.
struct Indices {
    seen: Vec<usize>,
}

impl Rower for Indices {
    fn visit(&mut self, r: &Row) -> bool {
        self.seen.push(r.get_idx().unwrap());
        true
    }

    fn join(self, other: Self) -> Self {
        let mut seen = self.seen;
        seen.extend(other.seen);
        Indices { seen }
    }

    fn duplicate(&self) -> Self {
        Indices { seen: self.seen.clone() }
    }
}

/// Sums the integer column 0, skipping nulls.
#[derive(Debug, PartialEq)]
struct IntSum {
    total: i64,
}

impl Rower for IntSum {
    fn visit(&mut self, r: &Row) -> bool {
        if let Ok(Data::Int(n)) = r.get(0) {
            self.total += *n;
        }
        true
    }

    fn join(self, other: Self) -> Self {
        IntSum { total: self.total + other.total }
    }

    fn duplicate(&self) -> Self {
        IntSum { total: self.total }
    }
}

fn int_bool_frame(n: usize) -> DataFrame {
    let schema = Schema::from_type_str("IB").unwrap();
    let mut df = DataFrame::new(schema);
    let mut row = Row::new(df.get_schema());
    for i in 0..n {
        row.set_int(0, i as i64).unwrap();
        row.set_bool(1, i % 2 == 0).unwrap();
        df.add_row(&row).unwrap();
    }
    df
}

fn parallel_by_blocks<R: Rower>(df: &DataFrame, v: &R) -> R {
    let mut results = Vec::new();
    for (lo, hi) in df.blocks() {
        let mut part = v.duplicate();
        df.map_range(&mut part, lo, hi);
        results.push(part);
    }
    join_blocks(results)
}

#[test]
fn rows_added_come_back_from_fill_row() {
    let schema = Schema::from_type_str("IFBS").unwrap();
    let mut df = DataFrame::new(schema);
    let mut row = Row::new(df.get_schema());
    row.set_int(0, 5).unwrap();
    row.set_float(1, 2.5f64.to_bits()).unwrap();
    row.set_bool(2, true).unwrap();
    row.set_string(3, String::from("a")).unwrap();
    df.add_row(&row).unwrap();
    row.set_null(0).unwrap();
    row.set_null(3).unwrap();
    row.set_bool(2, false).unwrap();
    df.add_row(&row).unwrap();
    assert_eq!(df.n_rows(), 2);
    assert_eq!(df.n_cols(), 4);

    let mut out = Row::new(df.get_schema());
    df.fill_row(0, &mut out).unwrap();
    assert_eq!(out.get(0).unwrap(), &Data::Int(5));
    assert_eq!(out.get(1).unwrap(), &Data::Float(2.5f64.to_bits()));
    assert_eq!(out.get(2).unwrap(), &Data::Bool(true));
    assert_eq!(out.get(3).unwrap(), &Data::String(String::from("a")));
    assert_eq!(out.get_idx(), Ok(0));
    df.fill_row(1, &mut out).unwrap();
    assert_eq!(out.get(0).unwrap(), &Data::Null);
    assert_eq!(out.get(1).unwrap(), &Data::Float(2.5f64.to_bits()));
    assert_eq!(out.get(2).unwrap(), &Data::Bool(false));
    assert_eq!(out.get(3).unwrap(), &Data::Null);
    assert_eq!(out.get_idx(), Ok(1));
    assert_eq!(df.fill_row(2, &mut out), Err(LiquidError::RowIndexOutOfBounds));
}

#[test]
fn fill_row_rejects_a_row_of_another_schema() {
    let df = int_bool_frame(3);
    let other = Schema::from_type_str("BI").unwrap();
    let mut row = Row::new(&other);
    assert_eq!(df.fill_row(0, &mut row), Err(LiquidError::TypeMismatch));
    assert_eq!(row.get(0).unwrap(), &Data::Null);
}

#[test]
fn add_row_rejects_a_row_of_another_schema() {
    let mut df = int_bool_frame(2);
    let other = Schema::from_type_str("II").unwrap();
    let row = Row::new(&other);
    assert_eq!(df.add_row(&row), Err(LiquidError::TypeMismatch));
    assert_eq!(df.n_rows(), 2);
}

#[test]
fn get_reports_each_bound() {
    let df = int_bool_frame(3);
    assert_eq!(df.get(0, 2), Ok(Data::Int(2)));
    assert_eq!(df.get(1, 1), Ok(Data::Bool(false)));
    assert_eq!(df.get(2, 0), Err(LiquidError::ColIndexOutOfBounds));
    assert_eq!(df.get(0, 3), Err(LiquidError::RowIndexOutOfBounds));
}

#[test]
fn set_int_on_a_float_column_is_a_type_mismatch_for_every_row() {
    let schema = Schema::from_type_str("FI").unwrap();
    let mut df = DataFrame::new(schema);
    let mut row = Row::new(df.get_schema());
    row.set_float(0, 1.0f64.to_bits()).unwrap();
    df.add_row(&row).unwrap();
    df.add_row(&row).unwrap();
    for r in 0..5 {
        assert_eq!(df.set_int(0, r, 3), Err(LiquidError::TypeMismatch));
    }
    for c in 2..6 {
        assert_eq!(df.set_int(c, 0, 3), Err(LiquidError::ColIndexOutOfBounds));
        assert_eq!(df.set_bool(c, 0, true), Err(LiquidError::ColIndexOutOfBounds));
        assert_eq!(df.get(c, 0), Err(LiquidError::ColIndexOutOfBounds));
    }
    assert_eq!(df.get(0, 1), Ok(Data::Float(1.0f64.to_bits())));
}

#[test]
fn setters_write_one_cell() {
    let schema = Schema::from_type_str("IFBS").unwrap();
    let mut df = DataFrame::new(schema);
    let row = Row::new(df.get_schema());
    df.add_row(&row).unwrap();
    df.add_row(&row).unwrap();
    df.set_int(0, 1, 9).unwrap();
    df.set_float(1, 0, 0.5f64.to_bits()).unwrap();
    df.set_bool(2, 1, true).unwrap();
    df.set_string(3, 0, String::from("s")).unwrap();
    assert_eq!(df.get(0, 1), Ok(Data::Int(9)));
    assert_eq!(df.get(0, 0), Ok(Data::Null));
    assert_eq!(df.get(1, 0), Ok(Data::Float(0.5f64.to_bits())));
    assert_eq!(df.get(2, 1), Ok(Data::Bool(true)));
    assert_eq!(df.get(3, 0), Ok(Data::String(String::from("s"))));
    assert_eq!(df.set_string(3, 2, String::from("t")), Err(LiquidError::RowIndexOutOfBounds));
    assert_eq!(df.set_float(0, 0, 0), Err(LiquidError::TypeMismatch));
}

#[test]
fn add_column_checks_name_and_length() {
    let mut df = int_bool_frame(2);
    assert_eq!(
        df.add_column(Column::Int(vec![Some(1), None]), Some(String::from("c"))),
        Ok(())
    );
    assert_eq!(df.n_cols(), 3);
    assert_eq!(df.get_col("c"), Some(2));
    assert_eq!(df.get(2, 1), Ok(Data::Null));
    assert_eq!(
        df.add_column(Column::Bool(vec![None, None]), Some(String::from("c"))),
        Err(LiquidError::NameAlreadyExists)
    );
    assert_eq!(
        df.add_column(Column::Bool(vec![None]), None),
        Err(LiquidError::RowIndexOutOfBounds)
    );
    assert_eq!(df.n_cols(), 3);
}

#[test]
fn from_columns_checks_types_and_lengths() {
    let schema = Schema::from_type_str("IB").unwrap();
    let ok = DataFrame::from_columns(
        schema,
        vec![Column::Int(vec![Some(1), Some(2)]), Column::Bool(vec![None, Some(true)])],
    )
    .ok()
    .unwrap();
    assert_eq!(ok.n_rows(), 2);
    assert_eq!(ok.get(1, 1), Ok(Data::Bool(true)));
    let schema = Schema::from_type_str("IB").unwrap();
    let bad = DataFrame::from_columns(schema, vec![Column::Int(vec![]), Column::Int(vec![])]);
    assert_eq!(bad.err(), Some(LiquidError::TypeMismatch));
    let schema = Schema::from_type_str("IB").unwrap();
    let bad = DataFrame::from_columns(schema, vec![Column::Int(vec![None]), Column::Bool(vec![])]);
    assert_eq!(bad.err(), Some(LiquidError::RowIndexOutOfBounds));
}

#[test]
fn map_visits_every_row_in_order() {
    let df = int_bool_frame(6);
    let mut v = Indices { seen: Vec::new() };
    df.map(&mut v);
    assert_eq!(v.seen, vec![0, 1, 2, 3, 4, 5]);
    let mut c = RowCounter { count: 0 };
    df.map(&mut c);
    assert_eq!(c.count, 6);
    let mut part = RowCounter { count: 0 };
    df.map_range(&mut part, 2, 5);
    assert_eq!(part.count, 3);
}

#[test]
fn blocks_split_the_rows_evenly_with_the_remainder_last() {
    assert_eq!(block_bounds(10, 3), vec![(0, 3), (3, 6), (6, 10)]);
    assert_eq!(block_bounds(10, 1), vec![(0, 10)]);
    assert_eq!(block_bounds(10, 0), vec![(0, 10)]);
    assert_eq!(block_bounds(2, 8), vec![(0, 1), (1, 2)]);
    assert_eq!(block_bounds(0, 4), vec![(0, 0)]);
    assert_eq!(block_bounds(1, 4), vec![(0, 1)]);
}

#[test]
fn parallel_blocks_agree_with_the_sequential_scan() {
    let mut df = int_bool_frame(10);
    for threads in 1..12 {
        df.n_threads = threads;
        let par = parallel_by_blocks(&df, &IntSum { total: 0 });
        let mut seq = IntSum { total: 0 };
        df.map(&mut seq);
        assert_eq!(par, seq);
        assert_eq!(par.total, 45);
        let order = parallel_by_blocks(&df, &Indices { seen: Vec::new() });
        assert_eq!(order.seen, (0..10).collect::<Vec<usize>>());
    }
}

#[test]
fn join_blocks_joins_left_to_right() {
    let parts = vec![
        Indices { seen: vec![1] },
        Indices { seen: vec![2, 3] },
        Indices { seen: vec![4] },
    ];
    assert_eq!(join_blocks(parts).seen, vec![1, 2, 3, 4]);
}

#[test]
fn counters_saturate() {
    let a = RowCounter { count: u64::MAX - 1 };
    let b = RowCounter { count: 5 };
    assert_eq!(a.join(b).count, u64::MAX);
    let schema = Schema::from_type_str("I").unwrap();
    let mut df = DataFrame::new(schema);
    let row = Row::new(df.get_schema());
    df.add_row(&row).unwrap();
    df.add_row(&row).unwrap();
    let mut c = RowCounter { count: u64::MAX - 1 };
    df.map(&mut c);
    assert_eq!(c.count, u64::MAX);
}

#[test]
fn a_frame_without_columns_has_no_rows() {
    let mut df = DataFrame::new(Schema::new());
    let row = Row::new(df.get_schema());
    df.add_row(&row).unwrap();
    assert_eq!(df.n_rows(), 0);
    assert_eq!(df.n_cols(), 0);
    assert!(df.n_threads >= 1);
}
