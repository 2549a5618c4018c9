#[test]
fn an_uncorrected_clock_would_drain_the_buffer_within_the_hour() {
    // 30 ppm over an hour is 108 ms, which is more than the whole buffer.
    let uncorrected = 3600.0 * 1000.0 * 30.0 / 1e6;
    assert!(uncorrected > 100.0, "{uncorrected} ms of drift per hour");
}
