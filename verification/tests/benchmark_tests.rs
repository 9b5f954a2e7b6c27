use tweakers::benchmark::{sysbench_cpu_score, sysbench_memory_score};

#[test]
fn cpu_score() {
    let out = "CPU speed:\n    events per second:  1234.56\n\nGeneral statistics:\n";
    assert_eq!(sysbench_cpu_score(out), Some("1234.56".to_string()));
    assert_eq!(sysbench_cpu_score("nothing"), None);
}

#[test]
fn memory_score() {
    let out = "10240.00 MiB transferred (8123.45 MiB/sec)\n";
    assert_eq!(sysbench_memory_score(out), Some("8123.45".to_string()));
    assert_eq!(sysbench_memory_score("no bandwidth"), None);
}
