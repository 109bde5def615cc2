use crows::config::Config;

#[test]
fn it_works() {
    // let result = add(2, 2);
    // assert_eq!(result, 4);
}

#[test]
fn split_config_keeps_a_positive_rate() {
    let c = Config::constant_arrival_rate_from_millis(5000, 10, 1000, 3, 0);
    let Config::ConstantArrivalRate(s) = c.split(3);
    assert_eq!(s.rate, 3);
}
