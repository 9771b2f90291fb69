//! Windows autostart through the Task Scheduler: the PowerShell scripts
//! that register, query and remove the task, and how their output is read.
//! Running PowerShell is the caller's part.

use crate::text;
use crate::text::{cat2, cat3, chars_of, decimal, signed_decimal, string_of};
use crate::win_process::{ps_escape, ps_escaped};
use vstd::prelude::*;

verus! {

pub const TASK_NAME: &'static str = "fastpatch";

/// The `Run` registry entries older builds used.
pub fn legacy_run_names() -> (res: Vec<&'static str>)
    ensures
        res@.map_values(|s: &str| s@) == seq!["fastpatch"@, "com.fastpatch.app"@, "Fastpatch"@],
{
    let mut v: Vec<&'static str> = Vec::new();
    v.push("fastpatch");
    v.push("com.fastpatch.app");
    v.push("Fastpatch");
    assert(v@.map_values(|s: &str| s@) =~= seq!["fastpatch"@, "com.fastpatch.app"@, "Fastpatch"@]);
    v
}

/// The script that removes one legacy `Run` entry.
pub open spec fn remove_run_entry_script(name: Seq<char>) -> Seq<char> {
    let n = ps_escaped(name);
    "$p = 'HKCU:\\Software\\Microsoft\\Windows\\CurrentVersion\\Run'; if (Get-ItemProperty -Path $p -Name '"@
        + n + "' -ErrorAction SilentlyContinue) { Remove-ItemProperty -Path $p -Name '"@ + n
        + "' -Force }"@
}

pub fn remove_run_entry(name: &str) -> (res: String)
    ensures
        res@ == remove_run_entry_script(name@),
{
    let n = ps_escape(name);
    let a = cat3(
        "$p = 'HKCU:\\Software\\Microsoft\\Windows\\CurrentVersion\\Run'; if (Get-ItemProperty -Path $p -Name '",
        n.as_str(),
        "' -ErrorAction SilentlyContinue) { Remove-ItemProperty -Path $p -Name '",
    );
    cat3(a.as_str(), n.as_str(), "' -Force }")
}

/// The script that tells whether the task exists (`yes` / `no`).
pub fn task_query_script() -> (res: String)
    ensures
        res@ == "if (Get-ScheduledTask -TaskName '"@ + ps_escaped(TASK_NAME@)
            + "' -ErrorAction SilentlyContinue) { 'yes' } else { 'no' }"@,
{
    let tn = ps_escape(TASK_NAME);
    cat3(
        "if (Get-ScheduledTask -TaskName '",
        tn.as_str(),
        "' -ErrorAction SilentlyContinue) { 'yes' } else { 'no' }",
    )
}

/// The task exists when the query printed `yes` (any ASCII case); a failed
/// query means it does not.
pub fn is_enabled(query: Result<String, String>) -> (res: bool)
    ensures
        res == (query matches Ok(s) && text::eq_ignore_ascii_case(s@, "yes"@)),
{
    match query {
        Ok(s) => {
            let c = chars_of(s.as_str());
            text::eq_ignore_ascii_case_str(&c, "yes")
        },
        Err(_) => false,
    }
}

/// Turning autostart off: the script that removes the task (the legacy
/// `Run` entries are removed first, see `remove_legacy_run_entries`).
pub fn disable() -> (res: String)
    ensures
        res@ == "Unregister-ScheduledTask -TaskName '"@ + ps_escaped(TASK_NAME@)
            + "' -Confirm:$false -ErrorAction SilentlyContinue"@,
{
    let tn = ps_escape(TASK_NAME);
    cat3(
        "Unregister-ScheduledTask -TaskName '",
        tn.as_str(),
        "' -Confirm:$false -ErrorAction SilentlyContinue",
    )
}

/// The script that registers the task: at log-on, highest rights,
/// priority 0, started minimized with `--from-autostart`.
pub open spec fn register_script(exe: Seq<char>) -> Seq<char> {
    "\n$exe = '"@ + ps_escaped(exe)
        + "'\n$action = New-ScheduledTaskAction -Execute $exe -Argument '--minimized --from-autostart'\n$trigger = New-ScheduledTaskTrigger -AtLogOn\n$settings = New-ScheduledTaskSettingsSet -AllowStartIfOnBatteries -DontStopIfGoingOnBatteries -StartWhenAvailable -ExecutionTimeLimit ([TimeSpan]::Zero) -MultipleInstances IgnoreNew -Priority 0\n$principal = New-ScheduledTaskPrincipal -UserId $env:USERNAME -LogonType Interactive -RunLevel Highest\nRegister-ScheduledTask -TaskName '"@
        + ps_escaped(TASK_NAME@) + "' -Action $action -Trigger $trigger -Settings $settings -Principal $principal -Force | Out-Null\n"@
}

pub fn task_register_script(exe: &str) -> (res: String)
    ensures
        res@ == register_script(exe@),
{
    let e = ps_escape(exe);
    let tn = ps_escape(TASK_NAME);
    let a = cat3(
        "\n$exe = '",
        e.as_str(),
        "'\n$action = New-ScheduledTaskAction -Execute $exe -Argument '--minimized --from-autostart'\n$trigger = New-ScheduledTaskTrigger -AtLogOn\n$settings = New-ScheduledTaskSettingsSet -AllowStartIfOnBatteries -DontStopIfGoingOnBatteries -StartWhenAvailable -ExecutionTimeLimit ([TimeSpan]::Zero) -MultipleInstances IgnoreNew -Priority 0\n$principal = New-ScheduledTaskPrincipal -UserId $env:USERNAME -LogonType Interactive -RunLevel Highest\nRegister-ScheduledTask -TaskName '",
    );
    cat3(
        a.as_str(),
        tn.as_str(),
        "' -Action $action -Trigger $trigger -Settings $settings -Principal $principal -Force | Out-Null\n",
    )
}

/// The message when autostart is turned on without administrator rights.
pub fn enable_not_elevated_message() -> (res: String)
    ensures
        res@ == "Для включения автозапуска нужны права администратора.\nЗапустите fastpatch вручную, подтвердите UAC один раз, затем снова включите автозапуск в настройках."@,
{
    text::owned(
        "Для включения автозапуска нужны права администратора.\nЗапустите fastpatch вручную, подтвердите UAC один раз, затем снова включите автозапуск в настройках.",
    )
}

/// `{:?}` of an optional exit code.
pub open spec fn debug_code(code: Option<i32>) -> Seq<char> {
    match code {
        Some(c) => "Some("@ + signed_decimal(c as int) + ")"@,
        None => "None"@,
    }
}

/// What a PowerShell run gives: on success its trimmed output; on failure
/// the trimmed error output, else the trimmed output, else a message with
/// the exit code.
pub open spec fn powershell_outcome(
    success: bool,
    stdout: Seq<char>,
    stderr: Seq<char>,
    code: Option<i32>,
) -> Result<Seq<char>, Seq<char>> {
    if !success {
        let msg = if text::trim(stderr).len() == 0 {
            text::trim(stdout)
        } else {
            text::trim(stderr)
        };
        Err(
            if msg.len() == 0 {
                "PowerShell завершился с кодом "@ + debug_code(code)
            } else {
                msg
            },
        )
    } else {
        Ok(text::trim(stdout))
    }
}

/// Reads the outcome of a PowerShell run.
pub fn run_powershell_outcome(success: bool, stdout: &str, stderr: &str, code: Option<i32>) -> (res:
    Result<String, String>)
    ensures
        text::res_str(res) == powershell_outcome(success, stdout@, stderr@, code),
{
    let o = chars_of(stdout);
    let to = text::trim_chars(&o);
    if success {
        return Ok(string_of(&to));
    }
    let e = chars_of(stderr);
    let te = text::trim_chars(&e);
    let msg = if te.len() == 0 {
        to
    } else {
        te
    };
    if msg.len() == 0 {
        let dc = match code {
            Some(c) => {
                let d = text::signed_decimal_string(c);
                cat3("Some(", d.as_str(), ")")
            },
            None => text::owned("None"),
        };
        Err(cat2("PowerShell завершился с кодом ", dc.as_str()))
    } else {
        Err(string_of(&msg))
    }
}

/// The scripts that remove the legacy `Run` entries, one per name, in
/// order.
pub fn remove_legacy_run_entries() -> (res: Vec<String>)
    ensures
        res@.len() == 3,
        res@[0]@ == remove_run_entry_script("fastpatch"@),
        res@[1]@ == remove_run_entry_script("com.fastpatch.app"@),
        res@[2]@ == remove_run_entry_script("Fastpatch"@),
{
    let names = legacy_run_names();
    let mut out: Vec<String> = Vec::new();
    let mut i: usize = 0;
    assert(names@.map_values(|s: &str| s@).len() == 3);
    while i < names.len()
        invariant
            names@.map_values(|s: &str| s@) == seq!["fastpatch"@, "com.fastpatch.app"@, "Fastpatch"@],
            names@.len() == 3,
            i <= names.len(),
            out@.len() == i,
            forall|k: int| 0 <= k < i ==> (#[trigger] out@[k])@ == remove_run_entry_script(names@[k]@),
        decreases names.len() - i,
    {
        assert(names@.map_values(|s: &str| s@)[i as int] == names@[i as int]@);
        out.push(remove_run_entry(names[i]));
        i += 1;
    }
    assert(names@.map_values(|s: &str| s@)[0] == names@[0]@);
    assert(names@.map_values(|s: &str| s@)[1] == names@[1]@);
    assert(names@.map_values(|s: &str| s@)[2] == names@[2]@);
    out
}

/// Turning autostart on: without administrator rights the error; with
/// them, the script that registers the task for `exe` (the legacy `Run`
/// entries are removed first).
pub fn enable(elevated: bool, exe: &str) -> (res: Result<String, String>)
    ensures
        elevated <==> res is Ok,
        res matches Ok(s) ==> s@ == register_script(exe@),
        res matches Err(e) ==> e@
            == "Для включения автозапуска нужны права администратора.\nЗапустите fastpatch вручную, подтвердите UAC один раз, затем снова включите автозапуск в настройках."@,
{
    if elevated {
        Ok(task_register_script(exe))
    } else {
        Err(enable_not_elevated_message())
    }
}

} // verus!
