//! The speaker itself: the scripts that make it speak, play and light up.
use vstd::prelude::*;
use crate::config::DeviceConfig;
use crate::shell;
use crate::shell::CommandResult;
use crate::text;

verus! {

/// The speaker.
#[derive(Debug)]
pub struct Device {
    config: DeviceConfig,
}

/// A place in a template.
pub open spec fn placeholder(key: Seq<char>) -> Seq<char> {
    "{"@ + key + "}"@
}

/// A template with quoted values in their places, one key after another.
pub open spec fn filled(
    template: Seq<char>,
    values: Seq<(Seq<char>, Seq<char>)>,
) -> Seq<char>
    decreases values.len(),
{
    if values.len() == 0 {
        template
    } else {
        text::replaced(
            filled(template, values.drop_last()),
            placeholder(values.last().0),
            shell::shell_quoted(values.last().1),
        )
    }
}

/// Fills a template with quoted values.
pub fn fill_template(template: &str, values: &Vec<(String, String)>) -> (r: String)
    ensures
        r@ == filled(template@, crate::urls::pairs_of(values@)),
{
    let ghost all = crate::urls::pairs_of(values@);
    let mut script: String = template.to_owned();
    let mut i: usize = 0;
    assert(all.take(0) =~= Seq::empty());
    while i < values.len()
        invariant
            i <= values@.len(),
            all == crate::urls::pairs_of(values@),
            script@ == filled(template@, all.take(i as int)),
        decreases values@.len() - i,
    {
        let mut place: String = "{".to_owned();
        place.append(values[i].0.as_str());
        place.append("}");
        proof {
            reveal_strlit("{");
            assert(all.take(i + 1).drop_last() =~= all.take(i as int));
        }
        let quoted: String = shell::quote(values[i].1.as_str());
        script = text::replace(script.as_str(), place.as_str(), quoted.as_str());
        i = i + 1;
    }
    assert(all.take(i as int) =~= all);
    script
}

/// The script that lights or darkens an LED.
pub open spec fn led_text(program: Seq<char>, id: u8) -> Seq<char> {
    program + text::decimal(id as nat) + " >/dev/null 2>&1"@
}

/// Whether a script did what it was run for.
pub fn check_script(result: &CommandResult) -> (r: Result<(), String>)
    ensures
        r is Ok <==> result.exit_code == 0,
        r matches Err(e) ==> e@ == shell::failure_text("command failed"@, *result),
{
    shell::check_command(result, "command failed")
}

impl Device {
    /// The settings of this speaker.
    pub closed spec fn settings(&self) -> DeviceConfig {
        self.config
    }

    /// A speaker with the settings.
    pub fn new(config: DeviceConfig) -> (r: Self)
        ensures
            r.settings() == config,
    {
        Device { config }
    }

    /// The settings of this speaker.
    pub fn config(&self) -> (r: &DeviceConfig)
        ensures
            *r == self.settings(),
    {
        &self.config
    }

    /// The script that speaks a text; nothing is spoken of a blank one.
    pub fn speak(&self, spoken: &str) -> (r: Option<String>)
        ensures
            r is None <==> text::is_blank(spoken@),
            r matches Some(script) ==> script@ == filled(
                self.settings().tts_command@,
                seq![("text"@, spoken@)],
            ),
    {
        if text::blank(spoken) {
            return None;
        }
        let mut values: Vec<(String, String)> = Vec::new();
        values.push(crate::urls::pair("text", spoken));
        assert(crate::urls::pairs_of(values@) =~= seq![("text"@, spoken@)]);
        Some(fill_template(self.config.tts_command.as_str(), &values))
    }

    /// The script that plays what is at a URL.
    pub fn play_url(&self, url: &str) -> (r: String)
        ensures
            r@ == filled(self.settings().play_url_command@, seq![("url"@, url@)]),
    {
        let mut values: Vec<(String, String)> = Vec::new();
        values.push(crate::urls::pair("url", url));
        assert(crate::urls::pairs_of(values@) =~= seq![("url"@, url@)]);
        fill_template(self.config.play_url_command.as_str(), &values)
    }

    /// The script that lights an LED, where LEDs are used and the number is one.
    pub fn show_led(&self, id: u8) -> (r: Option<String>)
        ensures
            r is Some <==> self.settings().led_enabled && id != 0,
            r matches Some(script) ==> script@ == led_text("/bin/show_led "@, id),
    {
        self.led_script("/bin/show_led ", id)
    }

    /// The script that darkens an LED, where LEDs are used and the number is one.
    pub fn shut_led(&self, id: u8) -> (r: Option<String>)
        ensures
            r is Some <==> self.settings().led_enabled && id != 0,
            r matches Some(script) ==> script@ == led_text("/bin/shut_led "@, id),
    {
        self.led_script("/bin/shut_led ", id)
    }

    fn led_script(&self, program: &str, id: u8) -> (r: Option<String>)
        ensures
            r is Some <==> self.settings().led_enabled && id != 0,
            r matches Some(script) ==> script@ == led_text(program@, id),
    {
        if !self.config.led_enabled || id == 0 {
            return None;
        }
        let mut script: String = program.to_owned();
        script.append(text::decimal_text(id as u64).as_str());
        script.append(" >/dev/null 2>&1");
        Some(script)
    }

    /// The script that stops all audio.
    pub fn stop_audio(&self) -> (r: &str)
        ensures
            r@ == self.settings().stop_audio_command@,
    {
        self.config.stop_audio_command.as_str()
    }

    /// The script that pauses audio.
    pub fn pause_audio(&self) -> (r: &str)
        ensures
            r@ == self.settings().pause_audio_command@,
    {
        self.config.pause_audio_command.as_str()
    }

    /// The script that lets paused audio go on.
    pub fn resume_audio(&self) -> (r: &str)
        ensures
            r@ == self.settings().resume_audio_command@,
    {
        self.config.resume_audio_command.as_str()
    }

    /// The script that lowers the volume.
    pub fn duck_audio(&self) -> (r: &str)
        ensures
            r@ == self.settings().duck_audio_command@,
    {
        self.config.duck_audio_command.as_str()
    }

    /// The script that restores the volume.
    pub fn unduck_audio(&self) -> (r: &str)
        ensures
            r@ == self.settings().unduck_audio_command@,
    {
        self.config.unduck_audio_command.as_str()
    }

    /// The script that cuts off whatever is heard.
    pub fn abort_current_output(&self) -> (r: &str)
        ensures
            r@ == self.settings().abort_command@,
    {
        self.config.abort_command.as_str()
    }
}

// ----------------------------------------------------------------------- laws

/// A template is filled by putting the value, quoted for the shell, in its place and
/// changing nothing else: what stands before the place stays, and what stands behind
/// it is filled alike. A template without the place stays as it is.
pub proof fn law_values_stand_in_their_places(
    template: Seq<char>,
    key: Seq<char>,
    value: Seq<char>,
    k: int,
)
    ensures
        ({
            let place = seq!['{'] + key + seq!['}'];
            let made = filled(template, seq![(key, value)]);
            &&& !text::contains_text(template, place) ==> made == template
            &&& text::find_from(template, place, 0) == Some(k) ==> made == template.take(k)
                + shell::shell_quoted(value) + filled(
                template.skip(k + place.len()),
                seq![(key, value)],
            )
        }),
{
    reveal_strlit("{");
    reveal_strlit("}");
    let place = seq!['{'] + key + seq!['}'];
    assert(placeholder(key) =~= place);
    text::law_replaced(template, place, shell::shell_quoted(value), k);
    reveal_with_fuel(filled, 2);
    let values = seq![(key, value)];
    assert(values.drop_last() =~= Seq::empty());
}

/// LEDs are lit and darkened by their own programs, by number, and quietly.
pub proof fn law_led_scripts(id: u8)
    ensures
        led_text("/bin/show_led "@, id) == "/bin/show_led "@ + text::decimal(id as nat)
            + " >/dev/null 2>&1"@,
        led_text("/bin/shut_led "@, id) == "/bin/shut_led "@ + text::decimal(id as nat)
            + " >/dev/null 2>&1"@,
{
}

} // verus!
