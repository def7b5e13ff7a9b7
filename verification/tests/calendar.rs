use launchd::{CalendarInterval, CronSchedule, CronUnit, Error};
use std::str::FromStr;

#[test]
fn create_valid_calendar_interval() -> Result<(), Error> {
    let check = CalendarInterval {
        minute: Some(5),
        hour: Some(5),
        day: Some(5),
        weekday: Some(5),
        month: Some(5),
    };

    let test = CalendarInterval::default()
        .with_day(5)?
        .with_minute(5)?
        .with_hour(5)?
        .with_weekday(5)?
        .with_month(5)?;

    assert_eq!(test, check);
    Ok(())
}

#[test]
fn create_invalid_calendar_interval() {
    let exp_value = 32;
    let test = CalendarInterval::default()
        .with_day(exp_value)
        .and_then(|ci| ci.with_minute(5))
        .and_then(|ci| ci.with_hour(5))
        .and_then(|ci| ci.with_weekday(5))
        .and_then(|ci| ci.with_month(5));
    assert!(test.is_err());
    println!("{:?}", test.unwrap_err());
}

#[test]
fn create_valid_launchd() {
    let check = launchd::Launchd {
        abandon_process_group: None,
        debug: None,
        disabled: None,
        enable_globbing: None,
        enable_transactions: None,
        enable_pressured_exit: None,
        on_demand: None,
        service_ipc: None,
        environment_variables: None,
        exit_time_out: None,
        group_name: None,
        inetd_compatibility: None,
        init_groups: None,
        hard_resource_limits: None,
        keep_alive: None,
        label: "Label".to_string(),
        launch_only_once: None,
        launch_events: None,
        legacy_timers: None,
        limit_load_from_hosts: None,
        limit_load_to_hosts: None,
        limit_load_to_session_type: None,
        limit_load_to_hardware: None,
        limit_load_from_hardware: None,
        low_priority_io: None,
        low_priority_background_io: None,
        hopefully_exits_first: None,
        hopefully_exits_last: None,
        mach_services: None,
        materialize_dataless_files: None,
        session_create: None,
        nice: None,
        process_type: None,
        program_arguments: None,
        program: Some("./henk.sh".to_string()),
        bundle_program: None,
        queue_directories: None,
        root_directory: None,
        run_at_load: None,
        sockets: None,
        soft_resource_limits: None,
        standard_error_path: None,
        standard_in_path: None,
        standard_out_path: None,
        start_calendar_intervals: None,
        start_interval: None,
        start_on_mount: None,
        throttle_interval: None,
        time_out: None,
        umask: None,
        user_name: None,
        wait_for_debugger: None,
        watch_paths: None,
        working_directory: None,
    };
    let test = launchd::Launchd::new("Label".to_string(), "./henk.sh".to_string());
    assert_eq!(test, check);
}

#[test]
fn expand_two_by_two_cron_units() {
    let wild = |lo: u32, hi: u32| CronUnit { wildcard: true, values: (lo..=hi).collect() };
    let s = CronSchedule {
        minutes: CronUnit { wildcard: false, values: vec![0, 30] },
        hours: CronUnit { wildcard: false, values: vec![9, 17] },
        days_of_month: wild(1, 31),
        days_of_week: wild(1, 7),
        months: wild(1, 12),
    };
    let got = CalendarInterval::from_cron_units(&s).unwrap();
    let want: Vec<CalendarInterval> = vec![
        CalendarInterval::default().with_hour(9).unwrap().with_minute(0).unwrap(),
        CalendarInterval::default().with_hour(9).unwrap().with_minute(30).unwrap(),
        CalendarInterval::default().with_hour(17).unwrap().with_minute(0).unwrap(),
        CalendarInterval::default().with_hour(17).unwrap().with_minute(30).unwrap(),
    ];
    assert_eq!(got, want);
}

#[test]
fn expand_parsed_cron_schedule() {
    let schedule = cron::Schedule::from_str("0 30 9 * * * *").unwrap();
    let got = CalendarInterval::from_cron_schedule(schedule).unwrap();
    let want = vec![CalendarInterval::default().with_hour(9).unwrap().with_minute(30).unwrap()];
    assert_eq!(got, want);
}

#[test]
fn all_wildcard_schedule_expands_to_nothing() {
    let schedule = cron::Schedule::from_str("* * * * * * *").unwrap();
    let got = CalendarInterval::from_cron_schedule(schedule).unwrap();
    assert_eq!(got, Vec::<CalendarInterval>::new());
}

#[test]
fn single_explicit_minute_yields_one_interval() {
    let schedule = cron::Schedule::from_str("0 30 * * * * *").unwrap();
    let got = CalendarInterval::from_cron_schedule(schedule).unwrap();
    let want = vec![CalendarInterval::default().with_minute(30).unwrap()];
    assert_eq!(got, want);
}

#[test]
fn out_of_range_cron_ordinal_fails_the_expansion() {
    let s = CronSchedule {
        minutes: CronUnit { wildcard: false, values: vec![75] },
        hours: CronUnit { wildcard: true, values: (0..=23).collect() },
        days_of_month: CronUnit { wildcard: true, values: (1..=31).collect() },
        days_of_week: CronUnit { wildcard: true, values: (1..=7).collect() },
        months: CronUnit { wildcard: true, values: (1..=12).collect() },
    };
    match CalendarInterval::from_cron_units(&s) {
        Err(Error::CalendarFieldOutOfBounds { min, max, value }) => {
            assert_eq!((min, max, value), (0, 59, 75));
        }
        other => panic!("expected an out-of-bounds error, got {:?}", other),
    }
}

#[test]
fn oversized_cron_ordinal_is_an_invalid_cron_field() {
    let s = CronSchedule {
        minutes: CronUnit { wildcard: false, values: vec![300] },
        hours: CronUnit { wildcard: true, values: (0..=23).collect() },
        days_of_month: CronUnit { wildcard: true, values: (1..=31).collect() },
        days_of_week: CronUnit { wildcard: true, values: (1..=7).collect() },
        months: CronUnit { wildcard: true, values: (1..=12).collect() },
    };
    match CalendarInterval::from_cron_units(&s) {
        Err(Error::InvalidCronField(raw)) => assert_eq!(raw, 300),
        other => panic!("expected an invalid-cron-field error, got {:?}", other),
    }
}
