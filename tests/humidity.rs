use thermo::hdc1010::{
    AcquisitionModeEnum, Configuration, Hdc1010Builder, HumidityResolution, TemperatureResolution,
};

#[test]
fn resolution_fields_round_trip() {
    for r in [HumidityResolution::EightBit, HumidityResolution::ElevenBit, HumidityResolution::FourteenBit] {
        assert_eq!(HumidityResolution::from_bits(r.into_bits()), r);
    }
    for r in [TemperatureResolution::ElevenBit, TemperatureResolution::FourteenBit] {
        assert_eq!(TemperatureResolution::from_bits(r.into_bits()), r);
    }
    assert_eq!(AcquisitionModeEnum::from_bits(1), AcquisitionModeEnum::Separate);
}

#[test]
fn conversion_times() {
    assert_eq!(HumidityResolution::EightBit.delay_time(), 2500);
    assert_eq!(HumidityResolution::ElevenBit.delay_time(), 3850);
    assert_eq!(HumidityResolution::FourteenBit.delay_time(), 6500);
    assert_eq!(TemperatureResolution::ElevenBit.delay_time(), 3650);
    assert_eq!(TemperatureResolution::FourteenBit.delay_time(), 6350);
}

#[test]
fn configuration_fields_sit_where_the_datasheet_puts_them() {
    let mut c = Configuration::default();
    c.set_humidity_resolution(HumidityResolution::EightBit);
    assert_eq!(c.into_bits(), 0x0200);
    c.set_temperature_resolution(TemperatureResolution::ElevenBit);
    assert_eq!(c.into_bits(), 0x0600);
    c.set_mode(AcquisitionModeEnum::Separate);
    c.set_heater_enable(true);
    c.set_reset(true);
    assert_eq!(c.into_bits(), 0xb600);
    assert!(c.reset() && c.heater_enable());
    assert_eq!(c.mode(), AcquisitionModeEnum::Separate);
    assert!(!c.power_ok());
    assert!(Configuration::from_bits(0x0800).power_ok());
    c.set_heater_enable(false);
    assert_eq!(c.into_bits(), 0x9600);
    assert_eq!(c.humidity_resolution(), HumidityResolution::EightBit);
    assert!(!Configuration::from_bits(0x0300).is_valid());
}

#[test]
fn builder_keeps_its_settings() {
    let b = Hdc1010Builder::default()
        .with_humidity_resolution(HumidityResolution::ElevenBit)
        .with_temperature_resolution(TemperatureResolution::ElevenBit);
    let dbg = format!("{b:?}");
    assert!(dbg.contains("ElevenBit"));
}
