use liquid_ml::{Coordinator, DataFrame, Key, Row, RowCounter, Rower, Schema, Step};

/// Counts the rows whose bool column 1 is true.
struct TrueCounter {
    count: u64,
}

impl Rower for TrueCounter {
    fn visit(&mut self, r: &Row) -> bool {
        if let Ok(liquid_ml::Data::Bool(true)) = r.get(1) {
            self.count += 1;
        }
        true
    }

    fn join(self, other: Self) -> Self {
        TrueCounter { count: self.count + other.count }
    }

    fn duplicate(&self) -> Self {
        TrueCounter { count: self.count }
    }
}

fn frame(flags: &[bool]) -> DataFrame {
    let mut df = DataFrame::new(Schema::from_type_str("IB").unwrap());
    let mut row = Row::new(df.get_schema());
    for (i, f) in flags.iter().enumerate() {
        row.set_int(0, i as i64).unwrap();
        row.set_bool(1, *f).unwrap();
        df.add_row(&row).unwrap();
    }
    df
}

/// Runs one round of the chain: each node scans its partition with a copy
/// of `v`; blobs are handed from node to node directly. Returns what each
/// node's round returned, node 1 first.
fn run_chain<R: Rower>(parts: &[DataFrame], v: &R) -> Vec<Option<R>> {
    let n = parts.len();
    let mut results: Vec<Option<R>> = (0..n).map(|_| None).collect();
    let mut inbox: Option<(usize, R)> = None;
    for node in (1..=n).rev() {
        let c = Coordinator::new(node, n);
        let mut local = v.duplicate();
        parts[node - 1].map(&mut local);
        let mut step = c.begin(local);
        if let Step::Await(local) = step {
            let (to, blob) = inbox.take().unwrap();
            assert_eq!(to, node);
            step = c.on_blob(local, blob);
        }
        match step {
            Step::Forward { to, acc } => {
                assert_eq!(to, node - 1);
                inbox = Some((to, acc));
            }
            Step::Finish(r) => results[node - 1] = Some(r),
            Step::Await(_) => panic!("a node waits twice"),
        }
    }
    results
}

#[test]
fn two_nodes_count_true_values() {
    let node1 = frame(&[true, false, true, false, false]);
    let node2 = frame(&[true, true, false, true, false]);
    let results = run_chain(&[node1, node2], &TrueCounter { count: 0 });
    assert_eq!(results[0].as_ref().map(|r| r.count), Some(5));
    assert!(results[1].is_none());
}

#[test]
fn chain_counts_all_rows_at_node_one() {
    let parts = vec![frame(&[true; 3]), frame(&[false; 4]), frame(&[]), frame(&[true; 2])];
    let results = run_chain(&parts, &RowCounter { count: 0 });
    assert_eq!(results[0].as_ref().map(|r| r.count), Some(9));
    for r in &results[1..] {
        assert!(r.is_none());
    }
}

#[test]
fn a_single_node_finishes_at_once() {
    let c = Coordinator::new(1, 1);
    match c.begin(RowCounter { count: 4 }) {
        Step::Finish(r) => assert_eq!(r.count, 4),
        _ => panic!("a lone node finishes"),
    }
}

#[test]
fn middle_nodes_wait_then_forward_down() {
    let c = Coordinator::new(2, 3);
    let local = match c.begin(RowCounter { count: 1 }) {
        Step::Await(l) => l,
        _ => panic!("node 2 of 3 waits"),
    };
    match c.on_blob(local, RowCounter { count: 6 }) {
        Step::Forward { to, acc } => {
            assert_eq!(to, 1);
            assert_eq!(acc.count, 7);
        }
        _ => panic!("node 2 forwards"),
    }
    let last = Coordinator::new(3, 3);
    match last.begin(RowCounter { count: 2 }) {
        Step::Forward { to, acc } => {
            assert_eq!(to, 2);
            assert_eq!(acc.count, 2);
        }
        _ => panic!("the last node starts the chain"),
    }
}

#[test]
fn byte_ranges_cover_the_file() {
    let n = 3;
    let mut next = 0;
    for node in 1..=n {
        let (from, len) = Coordinator::new(node, n).byte_range(100);
        assert_eq!(from, next);
        next = from + len;
    }
    assert_eq!(next, 100);
    assert_eq!(Coordinator::new(2, 3).byte_range(100), (33, 33));
    assert_eq!(Coordinator::new(3, 3).byte_range(100), (66, 34));
    assert_eq!(Coordinator::new(1, 1).byte_range(7), (0, 7));
}

#[test]
fn partition_keys_name_the_node() {
    let c = Coordinator::new(2, 4);
    let k: Key = c.partition_key("points");
    assert_eq!(k.namespace, "points");
    assert_eq!(k.node_id, 2);
    let k2 = Key::new("x", 1);
    assert_eq!(k2.node_id, 1);
}
