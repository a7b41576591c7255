use sensor_history::average::Average;
use sensor_history::circular_buffer::CircularBuffer;
use sensor_history::historic::Historic;
use sensor_history::json_display::JsonDisplay;
use sensor_history::sensor_data::{SensorCumulatedData, SensorData};
use sensor_history::write_json;

fn sample(i: u64) -> SensorData {
    SensorData::new(i, (i as i64) * 1000, (i as i64) * 10, (i as i64) * 100, i as i64)
}

#[test]
fn test_circ_buff() {
    let mut circ_buf = CircularBuffer::<SensorData>::new(5);
    circ_buf.put_item(SensorData::new(0, 1000, 11, 12, 13));
    circ_buf.put_item(SensorData::new(1, 2000, 21, 22, 23));
    circ_buf.put_item(SensorData::new(2, 3000, 31, 32, 33));

    assert_eq!(circ_buf.get_nb_items(), 3);

    circ_buf.put_item(SensorData::new(3, 4000, 41, 42, 43));
    circ_buf.put_item(SensorData::new(4, 5000, 51, 52, 53));

    assert_eq!(circ_buf.get_nb_items(), 5);

    // These two items must be refused, because the buffer is full
    circ_buf.put_item(SensorData::new(5, 6000, 61, 62, 63));
    circ_buf.put_item(SensorData::new(6, 7000, 71, 72, 73));

    assert_eq!(circ_buf.get_nb_items(), 5);

    match circ_buf.get_item() {
        Some(data0bis_unwrap) => {
            println!("data0bis = {:?}", data0bis_unwrap);
            assert_eq!(data0bis_unwrap.get_bmp280_pressure(), 1000);
            assert_eq!(data0bis_unwrap.get_bmp280_temperature(), 11);
            assert_eq!(data0bis_unwrap.get_htu21_temperature(), 12);
            assert_eq!(data0bis_unwrap.get_htu21_humidity(), 13);
        }
        None => println!("No data0bis"),
    }

    let mut out = String::new();
    write_json(&circ_buf, &mut out);
    assert!(out.starts_with('['));
    assert!(out.ends_with("]\n"));
}

#[test]
fn test_push_to_capacity() {
    let mut buf = CircularBuffer::<SensorData>::new(4);
    for i in 0..4 {
        assert!(buf.put_item(sample(i)));
    }
    assert!(!buf.put_item(sample(4)));
    assert_eq!(buf.get_nb_items(), 4);
}

#[test]
fn test_peek_after_wraparound() {
    let mut buf = CircularBuffer::<SensorData>::new(3);
    buf.put_item(sample(1));
    buf.put_item(sample(2));
    buf.put_item(sample(3));
    // wrap the read and write positions twice around the storage
    for i in 4..10 {
        assert_eq!(buf.get_item().unwrap().timestamp_ms, i - 3);
        assert!(buf.put_item(sample(i)));
    }
    // the buffer now holds 7, 8, 9: peek(i) is the i-th oldest
    assert_eq!(buf.peek_item(0).unwrap().timestamp_ms, 7);
    assert_eq!(buf.peek_item(1).unwrap().timestamp_ms, 8);
    assert_eq!(buf.peek_item(2).unwrap().timestamp_ms, 9);
    assert!(buf.peek_item(3).is_none());
}

#[test]
fn test_pop_drains_to_empty() {
    let mut buf = CircularBuffer::<SensorData>::new(4);
    for i in 0..3 {
        buf.put_item(sample(i));
    }
    for i in 0..3 {
        assert_eq!(buf.get_item().unwrap().timestamp_ms, i);
    }
    assert!(buf.is_empty());
    assert!(buf.get_item().is_none());
    assert_eq!(buf.get_nb_items(), 0);
}

#[test]
fn test_iterator_walks_oldest_first() {
    let mut buf = CircularBuffer::<SensorData>::new(3);
    buf.put_item(sample(1));
    buf.put_item(sample(2));
    let mut it = buf.iter();
    assert_eq!(it.next().unwrap().timestamp_ms, 1);
    assert_eq!(it.next().unwrap().timestamp_ms, 2);
    assert!(it.next().is_none());
}

#[test]
fn test_cascade_noop_under_limit() {
    let mut chain = vec![
        Historic::<SensorData>::new(8, 4),
        Historic::<SensorData>::new(8, 4),
    ];
    for i in 0..4 {
        chain[0].add(sample(i));
    }
    chain[1].add(sample(100));
    Historic::<SensorData>::reduce(&mut chain);
    assert_eq!(chain[0].get_nb_items(), 4);
    assert_eq!(chain[1].get_nb_items(), 1);
}

#[test]
fn test_cascade_limit_24() {
    let mut chain = vec![
        Historic::<SensorData>::new(32, 24),
        Historic::<SensorData>::new(32, 24),
    ];
    for i in 1..=25 {
        chain[0].add(sample(i));
    }
    assert_eq!(chain[0].get_nb_items(), 25);
    Historic::<SensorData>::reduce(&mut chain);
    // the oldest 12 of the 25 were averaged into one carry
    assert_eq!(chain[0].get_nb_items(), 13);
    assert_eq!(chain[1].get_nb_items(), 1);
    // mean of pressures 1000..12000 is 6500; of timestamps 1..12 is 6
    let mut out = String::new();
    Historic::<SensorData>::write_json_historics(&chain[1..], &mut out);
    assert!(out.contains("\"pressure\"  : 6500"));
    assert!(out.contains("\"timestamp\": 6"));
}

#[test]
fn test_average_reproduces_mean() {
    let samples = [
        SensorData::new(10, 1000, -30, 5, 7),
        SensorData::new(20, 2000, -40, 6, 8),
        SensorData::new(30, 4000, -51, 8, 9),
    ];
    let mut acc: SensorCumulatedData = SensorData::empty_cumulator();
    for s in samples.iter() {
        s.cumulate(&mut acc);
    }
    let avg = SensorData::divide(&acc, samples.len());
    assert_eq!(avg.timestamp_ms, 20);
    assert_eq!(avg.bmp280_pressure, 2333);
    // -121 / 3 truncates toward zero
    assert_eq!(avg.bmp280_temperature, -40);
    assert_eq!(avg.htu21_temperature, 6);
    assert_eq!(avg.htu21_humidity, 8);
}

#[test]
fn test_divide_truncates_toward_zero() {
    let acc = {
        let mut acc: SensorCumulatedData = SensorData::empty_cumulator();
        SensorData::new(3, -7, -7, 7, 7).cumulate(&mut acc);
        acc
    };
    let r = SensorData::divide(&acc, 2);
    assert_eq!(r.timestamp_ms, 1);
    assert_eq!(r.bmp280_pressure, -3);
    assert_eq!(r.bmp280_temperature, -3);
    assert_eq!(r.htu21_temperature, 3);
    assert_eq!(r.htu21_humidity, 3);
}

#[test]
fn test_json_item_exact() {
    let s = SensorData::new(1, 2, 3, 4, 5);
    let mut out = String::new();
    s.json_item(&mut out);
    assert_eq!(
        out,
        "{\"timestamp\": 1,\n\"pressure\"  : 2,\n\"bmp280Temp\": 3,\n\"htu21Temp\" : 4,\n\"humidity\"  : 5}\n"
    );
}

#[test]
fn test_json_item_negative() {
    let s = SensorData::new(0, -1500, -1, 0, 10);
    let mut out = String::new();
    s.json_item(&mut out);
    assert_eq!(
        out,
        "{\"timestamp\": 0,\n\"pressure\"  : -1500,\n\"bmp280Temp\": -1,\n\"htu21Temp\" : 0,\n\"humidity\"  : 10}\n"
    );
}

#[test]
fn test_write_json_empty_buffer() {
    let buf = CircularBuffer::<SensorData>::new(3);
    let mut out = String::new();
    write_json(&buf, &mut out);
    assert_eq!(out, "[]\n");
}

#[test]
fn test_snapshot_skips_empty_tiers() {
    let mut chain = vec![
        Historic::<SensorData>::new(8, 4),
        Historic::<SensorData>::new(8, 4),
    ];
    chain[1].add(sample(1));
    let mut out = String::new();
    Historic::<SensorData>::write_json_historics(&chain, &mut out);
    // the empty finest tier contributes no spurious separator
    assert!(out.starts_with("[{"));
    assert!(out.ends_with("}\n]\n"));
    assert_eq!(out.matches("\"timestamp\"").count(), 1);
}

#[test]
fn test_historic_full_tier_drops_sample() {
    let mut tier = Historic::<SensorData>::new(3, 2);
    for i in 0..5 {
        tier.add(sample(i));
    }
    assert_eq!(tier.get_nb_items(), 3);
}

#[test]
fn test_end_to_end_two_tiers() {
    let mut chain = vec![
        Historic::<SensorData>::new(5, 4),
        Historic::<SensorData>::new(5, 4),
    ];
    for i in 1..=5 {
        chain[0].add(sample(i));
    }
    assert_eq!(chain[0].get_nb_items(), 5);
    Historic::<SensorData>::reduce(&mut chain);
    // 5 > 4: the oldest 2 are averaged into the next tier, 3 remain
    assert_eq!(chain[0].get_nb_items(), 3);
    assert_eq!(chain[1].get_nb_items(), 1);

    let mut out = String::new();
    Historic::<SensorData>::write_json_historics(&chain, &mut out);
    assert!(out.starts_with('['));
    assert!(out.ends_with("]\n"));
    // exactly four rendered samples: the three remaining raw ones, then the
    // averaged one (mean of 1000 and 2000)
    assert_eq!(out.matches("\"timestamp\"").count(), 4);
    let pos_raw_3 = out.find("\"pressure\"  : 3000").unwrap();
    let pos_raw_4 = out.find("\"pressure\"  : 4000").unwrap();
    let pos_raw_5 = out.find("\"pressure\"  : 5000").unwrap();
    let pos_avg = out.find("\"pressure\"  : 1500").unwrap();
    assert!(pos_raw_3 < pos_raw_4 && pos_raw_4 < pos_raw_5 && pos_raw_5 < pos_avg);
}
