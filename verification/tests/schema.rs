use std::str::FromStr;

use arproxy_macfilter_agent::web::api::schema::{
    validate_mac_address, AllowedMacSchema, Validate,
};

#[test]
fn validate_good_input() {
    let mut samples = Vec::new();
    samples.push(AllowedMacSchema {
        mac_address: "02:ab:cd:ef:09:00".to_string(),
    });
    samples.push(AllowedMacSchema {
        mac_address: "02:AB:CD:EF:09:00".to_string(),
    });
    samples.push(AllowedMacSchema {
        mac_address: "02:Ab:cD:Ef:09:00".to_string(),
    });
    for sample in samples.iter() {
        sample.validate().expect("Validation Error");
    }
    // what passes validation can be parsed
    for sample in samples.iter() {
        pnet::util::MacAddr::from_str(&sample.mac_address).expect("Parse Error");
    }
}

#[test]
fn validate_bad_input() {
    let mut samples = Vec::new();
    samples.push(AllowedMacSchema {
        mac_address: "02-ab-cd-ef-09-00".to_string(),
    });
    samples.push(AllowedMacSchema {
        mac_address: "02-ab:cd-ef:09-00".to_string(),
    });
    samples.push(AllowedMacSchema {
        mac_address: "02:Ab:cD:Ef:09:00:01:13".to_string(),
    });
    samples.push(AllowedMacSchema {
        mac_address: "hello, world".to_string(),
    });
    for sample in samples.iter() {
        sample
            .validate()
            .expect_err("Vaildation for bad input was suceed");
    }
}

#[test]
fn validation_error_names_the_format() {
    let e = validate_mac_address("02:ab:cd:ef:09").unwrap_err();
    assert_eq!(e.code, "Invalid MAC address format");
}

#[test]
fn validation_agrees_with_the_pattern() {
    let re = regex::Regex::new(r"^([0-9A-Fa-f]{2}[:]){5}([0-9A-Fa-f]{2})$").unwrap();
    let samples = [
        "",
        ":",
        "02:ab:cd:ef:09:00",
        "02:AB:CD:EF:09:00",
        "00:00:00:00:00:00",
        "ff:ff:ff:ff:ff:ff",
        "FF:FF:FF:FF:FF:FF",
        "09:af:AF:9a:9A:a9",
        "02:ab:cd:ef:09:0",
        "02:ab:cd:ef:09:000",
        "02:ab:cd:ef:09:00:",
        ":02:ab:cd:ef:09:00",
        "02:ab:cd:ef:09:00\n",
        " 02:ab:cd:ef:09:00",
        "02:ab:cd:ef:09:0g",
        "02:ab:cd:ef:09:0G",
        "0/:ab:cd:ef:09:00",
        "0::ab:cd:ef:09:00",
        "0@:ab:cd:ef:09:00",
        "0`:ab:cd:ef:09:00",
        "02;ab:cd:ef:09:00",
        "02:ab:cd:ef:09-00",
        "02abcdef0900",
        "2:0:0:0:f:1",
        "02:ab:cd:ef:09:０0",
        "02:ab:cd:ef:09:é0",
        "02:ab:cd:ef:0９:00",
        "٠٢:ab:cd:ef:09:00",
        "02:ab:cd:ef:09:00:01:13",
        "hello, world",
        "xx:xx:xx:xx:xx:xx",
    ];
    for text in samples {
        assert_eq!(
            validate_mac_address(text).is_ok(),
            re.is_match(text),
            "on {:?}",
            text
        );
    }
}

#[test]
fn every_position_is_checked() {
    let good = "0a:1b:2c:3d:4e:5f";
    assert!(validate_mac_address(good).is_ok());
    for i in 0..17 {
        let mut chars: Vec<char> = good.chars().collect();
        chars[i] = if i % 3 == 2 { '0' } else { ':' };
        let bad: String = chars.into_iter().collect();
        assert!(validate_mac_address(&bad).is_err(), "on {:?}", bad);
    }
}
