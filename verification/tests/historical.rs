use chrono::NaiveTime;
use f1_data::ergast::{request_url, Ergast, Transport};
use f1_data::historical::{get_season, ErgastWeekend};
use f1_data::laptime::LapTime;
use f1_data::{Session, SessionType};

#[test]
fn historical_test_quali_results() {
    let mut client = Ergast::new(recorded_2021());
    let weekend = ErgastWeekend::new(&mut client, 2021, 22).unwrap();
    let results = weekend.qualifying_results(&mut client).unwrap();
    let max = results[0].clone();
    assert_eq!(max.position, "1");
}

#[test]
fn historical_test_quali_results_with_from() {
    let mut client = Ergast::new(recorded_2021());
    let weekend = ErgastWeekend::new(&mut client, 2021, 22).unwrap();
    let results: Session = weekend.qualifying_results(&mut client).unwrap().into();

    assert_eq!(results.session_type, SessionType::Qualifying);

    let max = &results.standings[0];
    assert_eq!(max.position, 1);
    assert_eq!(naive(max.lap_time), NaiveTime::from_hms_milli_opt(0, 1, 22, 109).unwrap());

    let lewis = &results.standings[1];
    assert_eq!(lewis.position, 2);
    assert_eq!(naive(lewis.lap_time), NaiveTime::from_hms_milli_opt(0, 1, 22, 480).unwrap());

    let alonso = &results.standings[10];
    assert_eq!(alonso.position, 11);
    assert_eq!(naive(alonso.lap_time), NaiveTime::from_hms_milli_opt(0, 1, 23, 460).unwrap());
}

#[test]
fn historical_test_race_results() {
    let mut client = Ergast::new(recorded_2021());
    let weekend = ErgastWeekend::new(&mut client, 2021, 22).unwrap();
    let results = weekend.race_results(&mut client).unwrap();
    let max = results[0].clone();
    assert_eq!(max.position, "1");
}

#[test]
fn historical_test_race_results_with_from() {
    let mut client = Ergast::new(recorded_2021());
    let weekend = ErgastWeekend::new(&mut client, 2021, 22).unwrap();
    let results: Session = weekend.race_results(&mut client).unwrap().into();

    assert_eq!(results.session_type, SessionType::Race);

    let max = &results.standings[0];
    assert_eq!(max.position, 1);
    assert_eq!(naive(max.lap_time), NaiveTime::from_hms_milli_opt(0, 1, 26, 103).unwrap());

    let lewis = &results.standings[1];
    assert_eq!(lewis.position, 2);
    assert_eq!(naive(lewis.lap_time), NaiveTime::from_hms_milli_opt(0, 1, 26, 615).unwrap());
}

#[test]
fn historical_test_get_weekend() {
    let mut client = Ergast::new(recorded_2021());
    let weekend = ErgastWeekend::new(&mut client, 2021, 22).unwrap();
    assert_eq!(weekend.name, "Abu Dhabi Grand Prix");
    assert_eq!(weekend.year, 2021);
    assert_eq!(weekend.round, 22);
}

#[test]
fn historical_test_get_2021_season() {
    let mut client = Ergast::new(recorded_2021());
    let weekends = get_season(&mut client, 2021).unwrap();
    assert_eq!(weekends.len(), 22);

    let first = weekends.first().unwrap();
    assert_eq!(first.name, "Bahrain Grand Prix");
}

// ---- recorded responses -------------------------------------------------

#[allow(dead_code)]
fn driver(code: &str) -> String {
    let (id, number, given, family, born, nationality) = match code {
        "VER" => ("max_verstappen", "33", "Max", "Verstappen", "1997-09-30", "Dutch"),
        "HAM" => ("hamilton", "44", "Lewis", "Hamilton", "1985-01-07", "British"),
        "NOR" => ("norris", "4", "Lando", "Norris", "1999-11-13", "British"),
        "PER" => ("perez", "11", "Sergio", "Pérez", "1990-01-26", "Mexican"),
        "SAI" => ("sainz", "55", "Carlos", "Sainz", "1994-09-01", "Spanish"),
        "BOT" => ("bottas", "77", "Valtteri", "Bottas", "1989-08-28", "Finnish"),
        "LEC" => ("leclerc", "16", "Charles", "Leclerc", "1997-10-16", "Monegasque"),
        "TSU" => ("tsunoda", "22", "Yuki", "Tsunoda", "2000-05-11", "Japanese"),
        "OCO" => ("ocon", "31", "Esteban", "Ocon", "1996-09-17", "French"),
        "RIC" => ("ricciardo", "3", "Daniel", "Ricciardo", "1989-07-01", "Australian"),
        "ALO" => ("alonso", "14", "Fernando", "Alonso", "1981-07-29", "Spanish"),
        "GAS" => ("gasly", "10", "Pierre", "Gasly", "1996-02-07", "French"),
        "STR" => ("stroll", "18", "Lance", "Stroll", "1998-10-29", "Canadian"),
        "MAZ" => ("mazepin", "9", "Nikita", "Mazepin", "1999-03-02", "Russian"),
        _ => panic!("no such driver in the recordings: {}", code),
    };
    format!(
        "{{\"driverId\":\"{}\",\"permanentNumber\":\"{}\",\"code\":\"{}\",\"url\":\"http://en.wikipedia.org/wiki/{}\",\"givenName\":\"{}\",\"familyName\":\"{}\",\"dateOfBirth\":\"{}\",\"nationality\":\"{}\"}}",
        id, number, code, family, given, family, born, nationality
    )
}

#[allow(dead_code)]
fn number_of(code: &str) -> &'static str {
    match code {
        "VER" => "33",
        "HAM" => "44",
        "NOR" => "4",
        "PER" => "11",
        "SAI" => "55",
        "BOT" => "77",
        "LEC" => "16",
        "TSU" => "22",
        "OCO" => "31",
        "RIC" => "3",
        "ALO" => "14",
        "GAS" => "10",
        "STR" => "18",
        "MAZ" => "9",
        _ => panic!("no such driver in the recordings: {}", code),
    }
}

#[allow(dead_code)]
fn constructor(code: &str) -> String {
    let (id, name, nationality) = match code {
        "VER" | "PER" => ("red_bull", "Red Bull", "Austrian"),
        "HAM" | "BOT" => ("mercedes", "Mercedes", "German"),
        "NOR" | "RIC" => ("mclaren", "McLaren", "British"),
        "SAI" | "LEC" => ("ferrari", "Ferrari", "Italian"),
        "TSU" | "GAS" => ("alphatauri", "AlphaTauri", "Italian"),
        "OCO" | "ALO" => ("alpine", "Alpine F1 Team", "French"),
        "STR" => ("aston_martin", "Aston Martin", "British"),
        "MAZ" => ("haas", "Haas F1 Team", "American"),
        _ => panic!("no such driver in the recordings: {}", code),
    };
    format!(
        "{{\"constructorId\":\"{}\",\"url\":\"http://en.wikipedia.org/wiki/{}\",\"name\":\"{}\",\"nationality\":\"{}\"}}",
        id, id, name, nationality
    )
}

/// The rounds of 2021: name, then circuit id, name, latitude, longitude,
/// locality and country.
#[allow(dead_code)]
fn calendar() -> Vec<[&'static str; 7]> {
    vec![
        ["Bahrain Grand Prix", "bahrain", "Bahrain International Circuit", "26.0325", "50.5106", "Sakhir", "Bahrain"],
        ["Emilia Romagna Grand Prix", "imola", "Autodromo Enzo e Dino Ferrari", "44.3439", "11.7167", "Imola", "Italy"],
        ["Portuguese Grand Prix", "portimao", "Autódromo Internacional do Algarve", "37.227", "-8.6267", "Portimão", "Portugal"],
        ["Spanish Grand Prix", "catalunya", "Circuit de Barcelona-Catalunya", "41.57", "2.26111", "Montmeló", "Spain"],
        ["Monaco Grand Prix", "monaco", "Circuit de Monaco", "43.7347", "7.42056", "Monte-Carlo", "Monaco"],
        ["Azerbaijan Grand Prix", "baku", "Baku City Circuit", "40.3725", "49.8533", "Baku", "Azerbaijan"],
        ["French Grand Prix", "ricard", "Circuit Paul Ricard", "43.2506", "5.79167", "Le Castellet", "France"],
        ["Styrian Grand Prix", "red_bull_ring", "Red Bull Ring", "47.2197", "14.7647", "Spielberg", "Austria"],
        ["Austrian Grand Prix", "red_bull_ring", "Red Bull Ring", "47.2197", "14.7647", "Spielberg", "Austria"],
        ["British Grand Prix", "silverstone", "Silverstone Circuit", "52.0786", "-1.01694", "Silverstone", "UK"],
        ["Hungarian Grand Prix", "hungaroring", "Hungaroring", "47.5789", "19.2486", "Budapest", "Hungary"],
        ["Belgian Grand Prix", "spa", "Circuit de Spa-Francorchamps", "50.4372", "5.97139", "Spa", "Belgium"],
        ["Dutch Grand Prix", "zandvoort", "Circuit Park Zandvoort", "52.3888", "4.54092", "Zandvoort", "Netherlands"],
        ["Italian Grand Prix", "monza", "Autodromo Nazionale di Monza", "45.6156", "9.28111", "Monza", "Italy"],
        ["Russian Grand Prix", "sochi", "Sochi Autodrom", "43.4057", "39.9578", "Sochi", "Russia"],
        ["Turkish Grand Prix", "istanbul", "Istanbul Park", "40.9517", "29.405", "Istanbul", "Turkey"],
        ["United States Grand Prix", "americas", "Circuit of the Americas", "30.1328", "-97.6411", "Austin", "USA"],
        ["Mexico City Grand Prix", "rodriguez", "Autódromo Hermanos Rodríguez", "19.4042", "-99.0907", "Mexico City", "Mexico"],
        ["São Paulo Grand Prix", "interlagos", "Autódromo José Carlos Pace", "-23.7036", "-46.6997", "São Paulo", "Brazil"],
        ["Qatar Grand Prix", "losail", "Losail International Circuit", "25.49", "51.4542", "Al Daayen", "Qatar"],
        ["Saudi Arabian Grand Prix", "jeddah", "Jeddah Corniche Circuit", "21.6319", "39.1044", "Jeddah", "Saudi Arabia"],
        ["Abu Dhabi Grand Prix", "yas_marina", "Yas Marina Circuit", "24.4672", "54.6031", "Abu Dhabi", "UAE"],
    ]
}

/// The fields that open a race of 2021, up to and including its circuit.
#[allow(dead_code)]
fn race_head(round: usize) -> String {
    let entry = calendar()[round - 1];
    format!(
        "\"season\":\"2021\",\"round\":\"{}\",\"url\":\"http://en.wikipedia.org/wiki/2021_{}\",\"raceName\":\"{}\",\"Circuit\":{{\"circuitId\":\"{}\",\"url\":\"http://en.wikipedia.org/wiki/{}\",\"circuitName\":\"{}\",\"Location\":{{\"lat\":\"{}\",\"long\":\"{}\",\"locality\":\"{}\",\"country\":\"{}\"}}}},\"date\":\"2021-01-01\",\"time\":\"13:00:00Z\"",
        round, entry[1], entry[0], entry[1], entry[1], entry[2], entry[3], entry[4], entry[5], entry[6]
    )
}

/// A response around a table of races.
#[allow(dead_code)]
fn envelope(path: &str, table: &str, races: &str) -> Vec<u8> {
    format!(
        "{{\"MRData\":{{\"xmlns\":\"http://ergast.com/mrd/1.5\",\"series\":\"f1\",\"url\":\"http://ergast.com/api/f1/{}.json\",\"limit\":\"30\",\"offset\":\"0\",\"total\":\"22\",\"RaceTable\":{{{},\"Races\":[{}]}}}}}}",
        path, table, races
    )
    .into_bytes()
}

/// The response that lists the rounds of 2021.
#[allow(dead_code)]
fn season_response() -> Vec<u8> {
    let mut races = String::new();
    for round in 1..=22 {
        if round > 1 {
            races.push(',');
        }
        races.push_str(&format!("{{{}}}", race_head(round)));
    }
    envelope("2021", "\"season\":\"2021\"", &races)
}

/// The response that describes one round of 2021.
#[allow(dead_code)]
fn weekend_response(round: usize) -> Vec<u8> {
    envelope(
        &format!("2021/{}", round),
        &format!("\"season\":\"2021\",\"round\":\"{}\"", round),
        &format!("{{{}}}", race_head(round)),
    )
}

/// One qualifying result. A segment without time is left out.
#[allow(dead_code)]
fn quali_entry(position: usize, code: &str, q1: &str, q2: &str, q3: &str) -> String {
    let mut entry = format!(
        "{{\"number\":\"{}\",\"position\":\"{}\",\"Driver\":{},\"Constructor\":{}",
        number_of(code),
        position,
        driver(code),
        constructor(code)
    );
    if !q1.is_empty() {
        entry.push_str(&format!(",\"Q1\":\"{}\"", q1));
    }
    if !q2.is_empty() {
        entry.push_str(&format!(",\"Q2\":\"{}\"", q2));
    }
    if !q3.is_empty() {
        entry.push_str(&format!(",\"Q3\":\"{}\"", q3));
    }
    entry.push('}');
    entry
}

/// One race result. A driver without fastest lap has no such field.
#[allow(dead_code)]
fn race_entry(position: usize, code: &str, fastest: &str) -> String {
    let mut entry = format!(
        "{{\"number\":\"{}\",\"position\":\"{}\",\"positionText\":\"{}\",\"points\":\"0\",\"Driver\":{},\"Constructor\":{},\"grid\":\"{}\",\"laps\":\"58\",\"status\":\"Finished\"",
        number_of(code),
        position,
        position,
        driver(code),
        constructor(code),
        position
    );
    if !fastest.is_empty() {
        entry.push_str(&format!(
            ",\"FastestLap\":{{\"rank\":\"{}\",\"lap\":\"39\",\"Time\":{{\"time\":\"{}\"}},\"AverageSpeed\":{{\"units\":\"kph\",\"speed\":\"220.800\"}}}}",
            position, fastest
        ));
    }
    entry.push('}');
    entry
}

#[allow(dead_code)]
fn results_response(round: usize, kind: &str, field: &str, entries: &[String]) -> Vec<u8> {
    envelope(
        &format!("2021/{}/{}", round, kind),
        &format!("\"season\":\"2021\",\"round\":\"{}\"", round),
        &format!("{{{},\"{}\":[{}]}}", race_head(round), field, entries.join(",")),
    )
}

/// Qualifying in Abu Dhabi, 2021.
#[allow(dead_code)]
fn abu_dhabi_qualifying() -> Vec<u8> {
    results_response(
        22,
        "qualifying",
        "QualifyingResults",
        &[
            quali_entry(1, "VER", "1:23.322", "1:22.800", "1:22.109"),
            quali_entry(2, "HAM", "1:22.845", "1:23.145", "1:22.480"),
            quali_entry(3, "NOR", "1:23.553", "1:23.256", "1:22.931"),
            quali_entry(4, "PER", "1:23.350", "1:23.135", "1:22.947"),
            quali_entry(5, "SAI", "1:23.624", "1:23.174", "1:22.992"),
            quali_entry(6, "BOT", "1:23.117", "1:23.246", "1:23.036"),
            quali_entry(7, "LEC", "1:23.467", "1:23.202", "1:23.122"),
            quali_entry(8, "TSU", "1:23.428", "1:23.404", "1:23.220"),
            quali_entry(9, "OCO", "1:23.764", "1:23.420", "1:23.389"),
            quali_entry(10, "RIC", "1:23.829", "1:23.448", "1:23.409"),
            quali_entry(11, "ALO", "1:23.846", "1:23.460", ""),
            quali_entry(12, "GAS", "1:23.726", "1:24.043", ""),
            quali_entry(13, "STR", "1:24.061", "1:24.066", ""),
            quali_entry(14, "MAZ", "1:25.685", "", ""),
        ],
    )
}

/// The race in Abu Dhabi, 2021.
#[allow(dead_code)]
fn abu_dhabi_race() -> Vec<u8> {
    results_response(
        22,
        "results",
        "Results",
        &[
            race_entry(1, "VER", "1:26.103"),
            race_entry(2, "HAM", "1:26.615"),
            race_entry(3, "SAI", "1:27.618"),
            race_entry(4, "TSU", "1:27.496"),
            race_entry(5, "GAS", "1:27.342"),
            race_entry(6, "BOT", "1:27.260"),
            race_entry(7, "NOR", "1:26.762"),
            race_entry(8, "ALO", "1:27.607"),
            race_entry(9, "OCO", "1:27.677"),
            race_entry(10, "LEC", "1:27.060"),
            race_entry(11, "MAZ", ""),
        ],
    )
}

/// Qualifying in Bahrain, 2021.
#[allow(dead_code)]
fn bahrain_qualifying() -> Vec<u8> {
    results_response(
        1,
        "qualifying",
        "QualifyingResults",
        &[
            quali_entry(1, "VER", "1:30.499", "1:30.318", "1:28.997"),
            quali_entry(2, "HAM", "1:30.617", "1:30.085", "1:29.385"),
            quali_entry(3, "BOT", "1:31.200", "1:30.186", "1:29.586"),
            quali_entry(4, "LEC", "1:30.691", "1:30.010", "1:29.678"),
            quali_entry(5, "GAS", "1:30.848", "1:30.513", "1:29.809"),
            quali_entry(6, "RIC", "1:30.795", "1:30.222", "1:29.927"),
            quali_entry(7, "NOR", "1:30.902", "1:30.099", "1:29.974"),
            quali_entry(8, "SAI", "1:31.653", "1:30.009", "1:30.215"),
            quali_entry(9, "ALO", "1:30.863", "1:30.595", "1:30.249"),
            quali_entry(10, "STR", "1:31.261", "1:30.624", "1:30.601"),
            quali_entry(11, "PER", "1:31.165", "1:30.659", ""),
            quali_entry(12, "TSU", "1:30.607", "1:31.203", ""),
            quali_entry(13, "OCO", "1:31.724", "", ""),
        ],
    )
}

/// The race in Bahrain, 2021.
#[allow(dead_code)]
fn bahrain_race() -> Vec<u8> {
    results_response(
        1,
        "results",
        "Results",
        &[
            race_entry(1, "HAM", "1:34.015"),
            race_entry(2, "VER", "1:33.228"),
            race_entry(3, "BOT", "1:32.090"),
            race_entry(4, "NOR", "1:34.396"),
            race_entry(5, "PER", "1:33.970"),
        ],
    )
}

/// A transport that holds the recorded responses of 2021.
#[allow(dead_code)]
fn recorded_2021() -> Transport {
    let mut transport = Transport::new();
    transport.record(request_url("2021"), Some(season_response()));
    for round in 1..=22 {
        transport.record(request_url(&format!("2021/{}", round)), Some(weekend_response(round)));
    }
    transport.record(request_url("2021/1/qualifying"), Some(bahrain_qualifying()));
    transport.record(request_url("2021/1/results"), Some(bahrain_race()));
    transport.record(request_url("2021/22/qualifying"), Some(abu_dhabi_qualifying()));
    transport.record(request_url("2021/22/results"), Some(abu_dhabi_race()));
    transport
}

/// The same time of day in `chrono`.
#[allow(dead_code)]
fn naive(time: LapTime) -> NaiveTime {
    NaiveTime::from_hms_milli_opt(time.hour(), time.minute(), time.second(), time.millisecond())
        .unwrap()
}
